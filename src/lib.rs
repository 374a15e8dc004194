pub mod access;
pub mod active;
pub mod laws;
pub mod market;
pub mod price;
pub mod provider;

pub use access::is_owner;
pub use active::ActivePerRegion;
pub use market::{FilMarket, FilMarketView};
pub use price::PricePerRegion;
pub use provider::StorageProvider;
