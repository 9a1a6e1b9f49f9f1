//! The user's configuration, the local directories the program keeps, and
//! the addresses of the service's endpoints.
use std::path::PathBuf;

use vstd::prelude::*;
use vstd::string::*;

verus! {

#[verifier::external_type_specification]
#[verifier::external_body]
pub struct ExPathBuf(PathBuf);

/// Relies on `Clone` for `PathBuf`, which the derived clones of the types
/// below call; nothing is claimed of the copy.
pub assume_specification[ <PathBuf as Clone>::clone ](p: &PathBuf) -> PathBuf;

/// User configuration, which can be persisted to disk.
#[derive(Debug, Clone)]
pub struct Config {
    /// User's API token. Keep it secret.
    pub api_token: String,
    /// User's preferred base directory for downloads.
    pub image_dir: PathBuf,
}

/// The directories where configuration and cached items are kept.
#[derive(Debug, Clone)]
pub struct Cache {
    cache_dir: PathBuf,
    config_dir: PathBuf,
}

impl Cache {
    /// The directory of cached items.
    pub closed spec fn cache_dir_spec(&self) -> PathBuf {
        self.cache_dir
    }

    /// The directory of the configuration file.
    pub closed spec fn config_dir_spec(&self) -> PathBuf {
        self.config_dir
    }

    /// A cache over directories that the caller has made sure exist and can
    /// be written to.
    pub fn from_dirs(cache_dir: PathBuf, config_dir: PathBuf) -> (r: Cache)
        ensures
            r.cache_dir_spec() == cache_dir,
            r.config_dir_spec() == config_dir,
    {
        Cache { cache_dir, config_dir }
    }

    /// The directory of cached items.
    pub fn cache_dir(&self) -> (r: &PathBuf)
        ensures
            *r == self.cache_dir_spec(),
    {
        &self.cache_dir
    }

    /// The directory of the configuration file.
    pub fn config_dir(&self) -> (r: &PathBuf)
        ensures
            *r == self.config_dir_spec(),
    {
        &self.config_dir
    }
}

/// The decimal digits of `n`, without leading zeros.
pub open spec fn decimal(n: nat) -> Seq<char>
    decreases n,
{
    if n < 10 {
        seq![digit(n)]
    } else {
        decimal(n / 10) + seq![digit(n % 10)]
    }
}

/// The character of a digit below ten.
pub open spec fn digit(d: nat) -> char {
    if d == 0 { '0' } else if d == 1 { '1' } else if d == 2 { '2' } else if d == 3 { '3' }
    else if d == 4 { '4' } else if d == 5 { '5' } else if d == 6 { '6' } else if d == 7 { '7' }
    else if d == 8 { '8' } else { '9' }
}

/// Relies on `ToString` for `u64`: the decimal digits of the number.
#[verifier::external_body]
fn decimal_string(n: u64) -> (r: String)
    ensures
        r@ == decimal(n as nat),
{
    n.to_string()
}

/// The address of the page `page` of the user's groups, ten to a page.
pub open spec fn groups_url_spec(page: nat, token: Seq<char>) -> Seq<char> {
    "https://api.groupme.com/v3/groups?per_page=10&page="@ + decimal(page) + "&token="@ + token
}

/// The address of the page of at most a hundred messages of a group that
/// are older than `before_id`, or of the newest messages when it is `None`.
pub open spec fn messages_url_spec(
    group_id: Seq<char>,
    before_id: Option<Seq<char>>,
    token: Seq<char>,
) -> Seq<char> {
    "https://api.groupme.com/v3/groups/"@ + group_id + "/messages?limit=100&"@ + match before_id {
        Some(id) => "before_id="@ + id + "&"@,
        None => Seq::empty(),
    } + "token="@ + token
}

/// Talks to the service on behalf of the configured user.
#[derive(Debug, Clone)]
pub struct Client {
    cache: Cache,
    config: Config,
}

impl Client {
    /// The cache the client was made with.
    pub closed spec fn cache_spec(&self) -> Cache {
        self.cache
    }

    /// The configuration the client was made with.
    pub closed spec fn config_spec(&self) -> Config {
        self.config
    }

    /// A client for the given cache and configuration.
    pub fn new(cache: Cache, config: Config) -> (r: Client)
        ensures
            r.cache_spec() == cache,
            r.config_spec() == config,
    {
        Client { cache, config }
    }

    /// The configuration the client uses.
    pub fn config(&self) -> (r: &Config)
        ensures
            *r == self.config_spec(),
    {
        &self.config
    }

    /// The address of the page `page` (counting from one) of the user's groups.
    pub fn groups_url(&self, page: u64) -> (r: String)
        ensures
            r@ == groups_url_spec(page as nat, self.config_spec().api_token@),
    {
        let mut url = String::from_str("https://api.groupme.com/v3/groups?per_page=10&page=");
        let number = decimal_string(page);
        url.append(number.as_str());
        url.append("&token=");
        url.append(self.config.api_token.as_str());
        url
    }

    /// The address of the page of messages of `group_id` older than
    /// `before_id`, or of the newest page when it is `None`.
    pub fn messages_url(&self, group_id: &str, before_id: &Option<String>) -> (r: String)
        ensures
            r@ == messages_url_spec(
                group_id@,
                match before_id {
                    Some(id) => Some(id@),
                    None => None,
                },
                self.config_spec().api_token@,
            ),
    {
        let mut url = String::from_str("https://api.groupme.com/v3/groups/");
        url.append(group_id);
        url.append("/messages?limit=100&");
        let ghost head = url@;
        match before_id {
            Some(id) => {
                url.append("before_id=");
                url.append(id.as_str());
                url.append("&");
            },
            None => {},
        }
        url.append("token=");
        url.append(self.config.api_token.as_str());
        proof {
            match before_id {
                Some(id) => {
                    assert(url@ =~= head + ("before_id="@ + id@ + "&"@) + "token="@
                        + self.config.api_token@);
                },
                None => {
                    assert(url@ =~= head + Seq::<char>::empty() + "token="@ + self.config.api_token@);
                },
            }
        }
        url
    }
}

} // verus!
