//! The command line's values, and the host they name.

use vstd::prelude::*;
use crate::outside::{parse_url, url_path_text, url_text};

verus! {

/// What the command line says.
#[derive(Debug, Clone)]
pub struct Args {
    /// Maximum number of concurrent requests; 0 for no limit of its own.
    pub max_concurrent_requests: u32,
    /// Verbose logging.
    pub verbose: bool,
    /// Total number of requests to send.
    pub num_requests: u32,
    /// The URL of the host that the requests go to.
    pub host: String,
}

/// Why the command line is refused.
#[derive(Debug, Copy, Clone, PartialEq, Eq, Structural)]
pub enum ValidationError {
    /// The host is no URL.
    InvalidHostUrl,
}

/// What the command line says, with a host that is a URL.
#[derive(Debug, Clone)]
pub struct Validated {
    pub host: BaseUrl,
    pub max_concurrent_requests: u32,
    pub num_requests: u32,
    pub verbose: bool,
}

impl Args {
    /// Checks the host. The command line is refused exactly if `url` takes
    /// the host for no URL. Else the host is kept as the URL that `url`
    /// writes for it, and every other value as it is.
    pub fn validate(&self) -> (checked: Result<Validated, ValidationError>)
        ensures
            match checked {
                Ok(validated) => {
                    &&& url_text(self.host@) == Some(validated.host@.text)
                    &&& url_path_text(self.host@) == Some(validated.host@.path)
                    &&& validated.host@.source == self.host@
                    &&& validated.max_concurrent_requests == self.max_concurrent_requests
                    &&& validated.num_requests == self.num_requests
                    &&& validated.verbose == self.verbose
                },
                Err(_) => url_text(self.host@) is None,
            },
    {
        Validated::from_parts(self, parse_url(self.host.as_str()))
    }
}

impl Validated {
    /// Puts the command line's values together with what `url` made of the
    /// host: `url` is the host's URL as `url` writes it, with its path;
    /// `None` if the host is no URL, and then the command line is refused.
    pub fn from_parts(args: &Args, url: Option<(String, String)>) -> (checked: Result<
        Validated,
        ValidationError,
    >)
        ensures
            match checked {
                Ok(validated) => {
                    &&& url matches Some((text, path))
                    &&& validated.host@.text == text@
                    &&& validated.host@.path == path@
                    &&& validated.host@.source == args.host@
                    &&& validated.max_concurrent_requests == args.max_concurrent_requests
                    &&& validated.num_requests == args.num_requests
                    &&& validated.verbose == args.verbose
                },
                Err(_) => url is None,
            },
    {
        match url {
            Some((text, path)) => Ok(
                Validated {
                    host: BaseUrl { source: args.host.clone(), text, path },
                    max_concurrent_requests: args.max_concurrent_requests,
                    num_requests: args.num_requests,
                    verbose: args.verbose,
                },
            ),
            None => Err(ValidationError::InvalidHostUrl),
        }
    }

    /// How many workers the pool gets on a machine that runs `available`
    /// threads at once: that many, but no more than the limit of concurrent
    /// requests, if there is one.
    pub open spec fn workers(&self, available: usize) -> usize {
        if self.max_concurrent_requests == 0 || available <= self.max_concurrent_requests {
            available
        } else {
            self.max_concurrent_requests as usize
        }
    }

    /// How many workers the pool gets on a machine that runs `available`
    /// threads at once: at least one, if the machine runs at least one.
    pub fn worker_count(&self, available: usize) -> (count: usize)
        ensures
            count == self.workers(available),
            available >= 1 ==> count >= 1,
    {
        if self.max_concurrent_requests == 0 || available <= self.max_concurrent_requests as usize {
            available
        } else {
            self.max_concurrent_requests as usize
        }
    }
}

/// A host as the contracts see it.
pub struct BaseUrlView {
    /// The text that names the host, as it was given.
    pub source: Seq<char>,
    /// The host's URL, as `url` writes it.
    pub text: Seq<char>,
    /// The path of that URL.
    pub path: Seq<char>,
}

/// The URL below which every request is sent.
#[derive(Debug)]
pub struct BaseUrl {
    source: String,
    text: String,
    path: String,
}

impl Clone for BaseUrl {
    fn clone(&self) -> (copy: Self)
        ensures
            copy@ == self@,
    {
        BaseUrl {
            source: self.source.clone(),
            text: self.text.clone(),
            path: self.path.clone(),
        }
    }
}

impl View for BaseUrl {
    type V = BaseUrlView;

    closed spec fn view(&self) -> BaseUrlView {
        BaseUrlView { source: self.source@, text: self.text@, path: self.path@ }
    }
}

impl BaseUrl {
    /// The URL, as `url` writes it.
    pub fn as_str(&self) -> (text: &str)
        ensures
            text@ == self@.text,
    {
        self.text.as_str()
    }

    /// The text that names the host, as it was given.
    pub fn source(&self) -> (text: &str)
        ensures
            text@ == self@.source,
    {
        self.source.as_str()
    }

    /// The path of the URL, below which the requests' own paths are put.
    pub fn path(&self) -> (text: &str)
        ensures
            text@ == self@.path,
    {
        self.path.as_str()
    }
}

} // verus!
