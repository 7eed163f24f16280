//! How a connection to a TV is set up.
use std::time::Duration;

use vstd::prelude::*;

use crate::address::parse_url;
#[allow(unused_imports)]
use crate::address::url_parsed;
use crate::error::TvError;

verus! {

/// What is known of a connection before it is made.
#[derive(Clone, Copy)]
pub struct LgtvBuilder {
    pub connect_timeout: Option<Duration>,
    pub read_timeout: Option<Duration>,
}

impl Default for LgtvBuilder {
    /// Nothing is limited in time.
    fn default() -> (builder: LgtvBuilder)
        ensures
            builder.connect_timeout is None,
            builder.read_timeout is None,
    {
        LgtvBuilder { connect_timeout: None, read_timeout: None }
    }
}

/// All that is needed to make a connection.
#[derive(Debug)]
pub struct ConnParams {
    pub url: String,
    pub client_key: String,
    pub connect_timeout: Option<Duration>,
    pub read_timeout: Option<Duration>,
}

impl LgtvBuilder {
    /// Limits the time that making a connection may take.
    pub fn connect_timeout(&mut self, timeout: Duration) -> (builder: &mut LgtvBuilder)
        ensures
            *builder == (LgtvBuilder { connect_timeout: Some(timeout), ..*old(self) }),
            *final(self) == *final(builder),
    {
        self.connect_timeout = Some(timeout);
        self
    }

    /// Limits the time that the answer to a command may take.
    pub fn read_timeout(&mut self, timeout: Duration) -> (builder: &mut LgtvBuilder)
        ensures
            *builder == (LgtvBuilder { read_timeout: Some(timeout), ..*old(self) }),
            *final(self) == *final(builder),
    {
        self.read_timeout = Some(timeout);
        self
    }

    /// Puts together what is needed to make a connection. `address` is the address of the TV, or what
    /// is wrong with it.
    pub fn params(self, address: Result<String, String>, client_key: &str) -> (result: Result<
        ConnParams,
        TvError,
    >)
        ensures
            match address {
                Ok(url) => {
                    &&& result matches Ok(params)
                    &&& params.url == url
                    &&& params.client_key@ == client_key@
                    &&& params.connect_timeout == self.connect_timeout
                    &&& params.read_timeout == self.read_timeout
                },
                Err(reason) => result == Err::<ConnParams, TvError>(TvError::InvalidUrl(reason)),
            },
    {
        match address {
            Ok(url) => Ok(
                ConnParams {
                    url,
                    client_key: String::from_str(client_key),
                    connect_timeout: self.connect_timeout,
                    read_timeout: self.read_timeout,
                },
            ),
            Err(reason) => Err(TvError::InvalidUrl(reason)),
        }
    }

    /// Reads the address of the TV, and puts together what is needed to make a connection to it.
    pub fn connect(self, url: &str, client_key: &str) -> (result: Result<ConnParams, TvError>)
        ensures
            match url_parsed(url@) {
                Ok(address) => {
                    &&& result matches Ok(params)
                    &&& params.url@ == address
                    &&& params.client_key@ == client_key@
                    &&& params.connect_timeout == self.connect_timeout
                    &&& params.read_timeout == self.read_timeout
                },
                Err(reason) => result matches Err(TvError::InvalidUrl(text)) && text@ == reason,
            },
    {
        self.params(parse_url(url), client_key)
    }
}

} // verus!
