//! Instance configuration: the values taken from the environment at
//! startup, and the named settings table.

use vstd::prelude::*;

verus! {

/// The environment-derived configuration. `data_path` and `assets_path`
/// are directory paths; `db_file` is the SQLite connection string
/// derived from the data path; the HTTP port is fixed.
pub struct EnvConfig {
    pub data_path: String,
    pub assets_path: String,
    pub db_file: String,
    pub port: u16,
    pub jwt_secret: String,
}

impl EnvConfig {
    /// The configuration for the given environment values: the assets
    /// path defaults to `assets`, the database file is
    /// `sqlite://{data_path}/stamon.db`, and the port is 3000.
    pub fn new(data_path: String, assets_path: Option<String>, jwt_secret: String) -> (r:
        EnvConfig)
        ensures
            r.data_path@ == data_path@,
            r.assets_path@ == (match assets_path {
                Some(a) => a@,
                None => "assets"@,
            }),
            r.db_file@ == "sqlite://"@ + data_path@ + "/stamon.db"@,
            r.port == 3000,
            r.jwt_secret@ == jwt_secret@,
    {
        let db_file = String::from_str("sqlite://").concat(data_path.as_str()).concat(
            "/stamon.db",
        );
        let assets = match assets_path {
            Some(a) => a,
            None => String::from_str("assets"),
        };
        EnvConfig { data_path, assets_path: assets, db_file, port: 3000, jwt_secret }
    }
}

/// The configuration for the given environment values; see
/// `EnvConfig::new`.
pub fn env_config(data_path: String, assets_path: Option<String>, jwt_secret: String) -> (r:
    EnvConfig)
    ensures
        r.data_path@ == data_path@,
        r.assets_path@ == (match assets_path {
            Some(a) => a@,
            None => "assets"@,
        }),
        r.db_file@ == "sqlite://"@ + data_path@ + "/stamon.db"@,
        r.port == 3000,
        r.jwt_secret@ == jwt_secret@,
{
    EnvConfig::new(data_path, assets_path, jwt_secret)
}

/// Relies on `str`'s equality: two string slices are equal exactly when
/// their character sequences are.
#[verifier::external_body]
fn str_eq(a: &str, b: &str) -> (r: bool)
    ensures
        r == (a@ == b@),
{
    a == b
}

/// One named setting. `last_updated` is in seconds since the Unix epoch.
pub struct Config {
    pub id: u16,
    pub name: String,
    pub value: String,
    pub category: Option<String>,
    pub last_updated: u64,
}

impl Clone for Config {
    fn clone(&self) -> (r: Self)
        ensures
            r == *self,
    {
        Config {
            id: self.id,
            name: self.name.clone(),
            value: self.value.clone(),
            category: self.category.clone(),
            last_updated: self.last_updated,
        }
    }
}

/// The first setting in `s` with the given name, front to back.
pub open spec fn find_by_name(s: Seq<Config>, name: Seq<char>) -> Option<Config>
    decreases s.len(),
{
    if s.len() == 0 {
        None
    } else if s.first().name@ == name {
        Some(s.first())
    } else {
        find_by_name(s.drop_first(), name)
    }
}

/// The settings table, with dense store-assigned ids.
pub struct ConfigStore {
    configs: Vec<Config>,
}

impl ConfigStore {
    /// The settings, in insertion order.
    pub closed spec fn view(&self) -> Seq<Config> {
        self.configs@
    }

    /// Dense ids.
    pub open spec fn wf(&self) -> bool {
        forall|i: int| 0 <= i < self@.len() ==> (#[trigger] self@[i]).id == i + 1
    }

    /// An empty settings table.
    pub fn new() -> (r: Self)
        ensures
            r.wf(),
            r@.len() == 0,
    {
        ConfigStore { configs: Vec::new() }
    }

    /// Appends one setting, stamped `now`, with the next dense id.
    /// Returns the number of rows inserted, which is always one.
    pub fn insert(&mut self, name: String, value: String, category: Option<String>, now: u64) -> (r:
        u64)
        requires
            old(self).wf(),
            old(self)@.len() + 1 < u16::MAX,
        ensures
            final(self).wf(),
            final(self)@ == old(self)@.push(
                Config {
                    id: (old(self)@.len() + 1) as u16,
                    name,
                    value,
                    category,
                    last_updated: now,
                },
            ),
            r == 1,
    {
        let id = (self.configs.len() + 1) as u16;
        self.configs.push(Config { id, name, value, category, last_updated: now });
        1
    }

    /// The first setting with the given name, if the table holds one.
    pub fn get_by_name(&self, name: &str) -> (r: Option<Config>)
        ensures
            r == find_by_name(self@, name@),
    {
        let n = self.configs.len();
        proof {
            assert(self@.skip(0) == self@);
        }
        for i in 0..n
            invariant
                n == self@.len(),
                find_by_name(self@, name@) == find_by_name(self@.skip(i as int), name@),
        {
            proof {
                assert(self@.skip(i as int).first() == self@[i as int]);
                assert(self@.skip(i as int).drop_first() == self@.skip(i + 1));
            }
            if str_eq(self.configs[i].name.as_str(), name) {
                return Some(self.configs[i].clone());
            }
        }
        proof {
            assert(self@.skip(n as int) =~= Seq::<Config>::empty());
        }
        None
    }

    /// All settings in the given category, in insertion order.
    pub fn list_by_category(&self, category: &str) -> (r: Vec<Config>)
        ensures
            r@ == self@.filter(
                |c: Config| c.category is Some && c.category.unwrap()@ == category@,
            ),
    {
        let mut out: Vec<Config> = Vec::new();
        let n = self.configs.len();
        for i in 0..n
            invariant
                n == self@.len(),
                out@ == self@.take(i as int).filter(
                    |c: Config| c.category is Some && c.category.unwrap()@ == category@,
                ),
        {
            reveal_with_fuel(Seq::filter, 2);
            let matches = match &self.configs[i].category {
                Some(c) => str_eq(c.as_str(), category),
                None => false,
            };
            if matches {
                out.push(self.configs[i].clone());
            }
            assert(self@.take(i + 1).drop_last() == self@.take(i as int));
        }
        assert(self@.take(n as int) == self@);
        out
    }
}

} // verus!
