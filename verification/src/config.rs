//! Connection parameters of the indexer.

use vstd::prelude::*;
use vstd::string::StringExecFns;

verus! {

/// Connection parameters that the indexer needs to start.
#[derive(Debug)]
pub struct IndexerConfig {
    pub api_key: String,
    pub database_url: String,
    pub redis_url: String,
    pub coingecko_api: String,
}

impl Default for IndexerConfig {
    /// The configuration in which every parameter is the empty text.
    fn default() -> (config: Self)
        ensures
            config.api_key@ == Seq::<char>::empty(),
            config.database_url@ == Seq::<char>::empty(),
            config.redis_url@ == Seq::<char>::empty(),
            config.coingecko_api@ == Seq::<char>::empty(),
    {
        IndexerConfig {
            api_key: String::new(),
            database_url: String::new(),
            redis_url: String::new(),
            coingecko_api: String::new(),
        }
    }
}

/// A connection parameter that is missing.
#[derive(Debug, Clone, Copy, PartialEq, Eq, Structural)]
pub enum ConfigError {
    InvalidAPIKey,
    InvalidDatabseURL,
    InvalidRedisURL,
    InvalidCoingeckoAPI,
}

impl ConfigError {
    /// The message of the error, as a text.
    pub open spec fn text(self) -> Seq<char> {
        match self {
            ConfigError::InvalidAPIKey => "Error: Invalid API Key"@,
            ConfigError::InvalidDatabseURL => "Error: Invalid Database URL"@,
            ConfigError::InvalidRedisURL => "Error: Invalid Redis URL"@,
            ConfigError::InvalidCoingeckoAPI => "Error: Invalid Coingecko API"@,
        }
    }

    /// Returns the message of the error.
    pub fn message(&self) -> (message: String)
        ensures
            message@ == self.text(),
    {
        match self {
            ConfigError::InvalidAPIKey => String::from_str("Error: Invalid API Key"),
            ConfigError::InvalidDatabseURL => String::from_str("Error: Invalid Database URL"),
            ConfigError::InvalidRedisURL => String::from_str("Error: Invalid Redis URL"),
            ConfigError::InvalidCoingeckoAPI => String::from_str("Error: Invalid Coingecko API"),
        }
    }
}

/// The first parameter that is missing, in the order API key, database
/// address, queue address, price oracle key; none where all are there.
pub open spec fn first_missing(
    api_key: Option<String>,
    database_url: Option<String>,
    redis_url: Option<String>,
    coingecko_api: Option<String>,
) -> Option<ConfigError> {
    if api_key is None {
        Some(ConfigError::InvalidAPIKey)
    } else if database_url is None {
        Some(ConfigError::InvalidDatabseURL)
    } else if redis_url is None {
        Some(ConfigError::InvalidRedisURL)
    } else if coingecko_api is None {
        Some(ConfigError::InvalidCoingeckoAPI)
    } else {
        None
    }
}

impl IndexerConfig {
    /// Builds the configuration from the values that were found for its
    /// four parameters. It fails on the first parameter that is missing.
    pub fn get_config(
        api_key: Option<String>,
        database_url: Option<String>,
        redis_url: Option<String>,
        coingecko_api: Option<String>,
    ) -> (config: Result<IndexerConfig, ConfigError>)
        ensures
            match config {
                Ok(found) => {
                    &&& first_missing(api_key, database_url, redis_url, coingecko_api) is None
                    &&& Some(found.api_key) == api_key
                    &&& Some(found.database_url) == database_url
                    &&& Some(found.redis_url) == redis_url
                    &&& Some(found.coingecko_api) == coingecko_api
                },
                Err(missing) => first_missing(api_key, database_url, redis_url, coingecko_api)
                    == Some(missing),
            },
    {
        let api_key: String = match api_key {
            Some(value) => value,
            None => {
                return Err(ConfigError::InvalidAPIKey);
            },
        };
        let database_url: String = match database_url {
            Some(value) => value,
            None => {
                return Err(ConfigError::InvalidDatabseURL);
            },
        };
        let redis_url: String = match redis_url {
            Some(value) => value,
            None => {
                return Err(ConfigError::InvalidRedisURL);
            },
        };
        let coingecko_api: String = match coingecko_api {
            Some(value) => value,
            None => {
                return Err(ConfigError::InvalidCoingeckoAPI);
            },
        };
        Ok(IndexerConfig { api_key, database_url, redis_url, coingecko_api })
    }
}

} // verus!
