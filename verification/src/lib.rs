//! Rendering the `tokenURI` of an NFT as an SVG image and as a metadata
//! document.
//!
//! The library is the whole pipeline between a request and its answer,
//! but for the call against the node: it reads the token reference from
//! the request ([`token`]), builds the call data ([`calldata`]), decodes
//! and sanitizes what the contract returned ([`sanitize`]), lays the text
//! out as SVG ([`svg`]), and builds the metadata whose image points back
//! at the image route ([`metadata`], [`route`]). [`service`] puts these
//! together for the two endpoints.
//!
//! Every function is verified against its contract. What is taken on
//! trust is named where it stands: two functions of the standard library
//! in [`text`], and the four calls into `ethers` in [`token`].

pub mod calldata;
pub mod config;
pub mod error;
pub mod metadata;
pub mod notation;
pub mod route;
pub mod sanitize;
pub mod service;
pub mod svg;
pub mod text;
pub mod token;
