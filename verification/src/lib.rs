//! Mail-borne transport for the AXIOM network: the `antie` mail gateway and
//! the `tot` outbound tunnel.

pub mod text;
pub mod json;
pub mod antie;
pub mod paths;
pub mod table;
pub mod tot;
