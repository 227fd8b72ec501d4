//! Attribute resolution for ship fits.
//!
//! A fit (hull, modules with charges, drones) and a skill map become an item
//! graph whose attributes are modified by dogma effects. This library holds
//! the verified rules of that calculation that involve no fractional values:
//! which items a fit is made of and how active they may be (`pass_1`,
//! `pass_2`), how every modifier is routed to its target attributes with its
//! stacking-penalty flag (`pass_2`), which contributions an evaluation
//! applies, grouped and ordered by operator, and the penalty exponent
//! (`pass_3`), which hull attributes follow a reactive hardener (`pass_4`),
//! the reading of fits in the EFT text format (`eft`) and of module states
//! given as letters (`fit_states`).
pub mod data_types;
pub mod eft;
pub mod fit_states;
pub mod info;
pub mod item;
pub mod pass_1;
pub mod pass_2;
pub mod pass_3;
pub mod pass_4;
pub mod text;
