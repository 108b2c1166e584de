use vstd::prelude::*;

use crate::text::{join3, str_eq};

verus! {

/// The validated configuration of the proxy.
#[derive(Debug)]
pub struct Config {
    pub server: ServerConfig,
    pub auth: AuthConfig,
    pub cache: CacheConfig,
    pub registries: Vec<Registry>,
    pub repositories: Vec<Repository>,
}

#[derive(Debug)]
pub struct ServerConfig {
    pub bind_address: String,
    pub port: u16,
}

#[derive(Debug)]
pub struct AuthConfig {
    pub jwt_secret: String,
}

#[derive(Debug)]
pub struct CacheConfig {
    /// Root directory of the blob store.
    pub directory: String,
    pub max_size_bytes: u64,
    pub max_age_seconds: u64,
}

/// An upstream registry.
#[derive(Debug)]
pub struct Registry {
    pub id: String,
    pub url: String,
    pub auth: Option<UpstreamAuth>,
}

/// A mapping from a logical repository name to a repository of an upstream registry.
#[derive(Debug)]
pub struct Repository {
    pub name: String,
    pub registry_id: String,
    pub upstream_name: String,
}

/// Credentials for an upstream registry's token service.
#[derive(Debug)]
pub struct UpstreamAuth {
    pub username: String,
    pub password: String,
}

/// Where a logical repository lives upstream.
#[derive(Debug)]
pub struct ResolvedRepository {
    pub upstream_name: String,
    pub registry_url: String,
    pub auth: Option<UpstreamAuth>,
}

/// Field-wise equality of optional credentials.
pub open spec fn same_auth(a: Option<UpstreamAuth>, b: Option<UpstreamAuth>) -> bool {
    match (a, b) {
        (None, None) => true,
        (Some(x), Some(y)) => x.username@ == y.username@ && x.password@ == y.password@,
        _ => false,
    }
}

pub fn copy_auth(a: &Option<UpstreamAuth>) -> (r: Option<UpstreamAuth>)
    ensures
        same_auth(*a, r),
{
    match a {
        None => None,
        Some(x) => Some(UpstreamAuth { username: x.username.clone(), password: x.password.clone() }),
    }
}

pub fn default_bind_address() -> (r: String)
    ensures
        r@ == "0.0.0.0"@,
{
    String::from_str("0.0.0.0")
}

pub fn default_port() -> (r: u16)
    ensures
        r == 5000,
{
    5000
}

impl Config {
    /// Some registry has this id.
    pub open spec fn knows_registry(&self, id: Seq<char>) -> bool {
        exists|j: int| 0 <= j < self.registries@.len() && #[trigger] self.registries@[j].id@ == id
    }

    /// Every repository mapping names a configured registry.
    pub open spec fn is_valid(&self) -> bool {
        forall|i: int|
            0 <= i < self.repositories@.len() ==> self.knows_registry(
                #[trigger] self.repositories@[i].registry_id@,
            )
    }

    /// `i` is the first repository mapping with this logical name.
    pub open spec fn is_first_repository(&self, i: int, name: Seq<char>) -> bool {
        0 <= i < self.repositories@.len() && self.repositories@[i].name@ == name && forall|k: int|
            0 <= k < i ==> #[trigger] self.repositories@[k].name@ != name
    }

    /// `j` is the first registry with this id.
    pub open spec fn is_first_registry(&self, j: int, id: Seq<char>) -> bool {
        0 <= j < self.registries@.len() && self.registries@[j].id@ == id && forall|k: int|
            0 <= k < j ==> #[trigger] self.registries@[k].id@ != id
    }

    /// The message for a mapping whose registry is unknown.
    pub open spec fn unknown_registry_message(repo: Repository) -> Seq<char> {
        "Repository '"@ + repo.name@ + "' references unknown registry_id '"@ + repo.registry_id@
            + "'"@
    }

    /// Index of the first registry with this id, if any.
    pub fn find_registry(&self, id: &str) -> (r: Option<usize>)
        ensures
            r matches Some(j) ==> self.is_first_registry(j as int, id@),
            r is None ==> !self.knows_registry(id@),
    {
        let mut j: usize = 0;
        while j < self.registries.len()
            invariant
                0 <= j <= self.registries@.len(),
                forall|k: int| 0 <= k < j ==> #[trigger] self.registries@[k].id@ != id@,
            decreases self.registries@.len() - j,
        {
            if str_eq(self.registries[j].id.as_str(), id) {
                return Some(j);
            }
            j = j + 1;
        }
        None
    }

    /// Checks that every repository mapping names a configured registry; the error
    /// names the first mapping that does not.
    pub fn validate(&self) -> (r: Result<(), String>)
        ensures
            r is Ok <==> self.is_valid(),
            r matches Err(m) ==> exists|i: int|
                0 <= i < self.repositories@.len() && !self.knows_registry(
                    #[trigger] self.repositories@[i].registry_id@,
                ) && (forall|k: int|
                    0 <= k < i ==> self.knows_registry(#[trigger] self.repositories@[k].registry_id@))
                    && m@ == Self::unknown_registry_message(self.repositories@[i]),
    {
        let mut i: usize = 0;
        while i < self.repositories.len()
            invariant
                0 <= i <= self.repositories@.len(),
                forall|k: int|
                    0 <= k < i ==> self.knows_registry(#[trigger] self.repositories@[k].registry_id@),
            decreases self.repositories@.len() - i,
        {
            let repo = &self.repositories[i];
            if self.find_registry(repo.registry_id.as_str()).is_none() {
                let head = join3("Repository '", repo.name.as_str(), "' references unknown registry_id '");
                let m = join3(head.as_str(), repo.registry_id.as_str(), "'");
                return Err(m);
            }
            i = i + 1;
        }
        Ok(())
    }

    /// Resolves a logical repository name through the first mapping with that name and
    /// the first registry with the mapping's id.
    pub fn resolve_repository(&self, repository_name: &str) -> (r: Option<ResolvedRepository>)
        ensures
            r matches Some(res) ==> exists|i: int, j: int|
                #![trigger self.is_first_repository(i, repository_name@), self.is_first_registry(j, self.repositories@[i].registry_id@)]
                self.is_first_repository(i, repository_name@) && self.is_first_registry(
                    j,
                    self.repositories@[i].registry_id@,
                ) && res.upstream_name@ == self.repositories@[i].upstream_name@
                    && res.registry_url@ == self.registries@[j].url@ && same_auth(
                    self.registries@[j].auth,
                    res.auth,
                ),
            r is None ==> forall|i: int|
                #[trigger] self.is_first_repository(i, repository_name@) ==> !self.knows_registry(
                    self.repositories@[i].registry_id@,
                ),
    {
        let mut i: usize = 0;
        while i < self.repositories.len()
            invariant
                0 <= i <= self.repositories@.len(),
                forall|k: int| 0 <= k < i ==> #[trigger] self.repositories@[k].name@ != repository_name@,
            decreases self.repositories@.len() - i,
        {
            let repo = &self.repositories[i];
            if str_eq(repo.name.as_str(), repository_name) {
                assert(self.is_first_repository(i as int, repository_name@));
                match self.find_registry(repo.registry_id.as_str()) {
                    Some(j) => {
                        let registry = &self.registries[j];
                        let res = ResolvedRepository {
                            upstream_name: repo.upstream_name.clone(),
                            registry_url: registry.url.clone(),
                            auth: copy_auth(&registry.auth),
                        };
                        assert(self.is_first_registry(j as int, self.repositories@[i as int].registry_id@));
                        return Some(res);
                    },
                    None => {
                        assert forall|k: int| #[trigger]
                            self.is_first_repository(k, repository_name@) implies k == i by {
                            if k < i {
                            } else if k > i {
                                assert(self.repositories@[i as int].name@ == repository_name@);
                            }
                        }
                        return None;
                    },
                }
            }
            i = i + 1;
        }
        None
    }
}

} // verus!
