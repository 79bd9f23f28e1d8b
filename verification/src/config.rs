//! Runtime configuration and profile resolution.
//!
//! A configuration file holds named profiles, each with at most one secret
//! key.  The runtime configuration is resolved with a fixed priority:
//! explicit argument, then environment value, then the stored profile, then
//! the default.  Reading and writing the file itself is I/O and stays
//! outside the library; the functions here work on the in-memory file.

use vstd::prelude::*;

use crate::text::str_eq;
use crate::types::OutputFormat;

verus! {

use vstd::string::StringExecFns;

/// A named profile's stored contents: at most one secret key.
#[derive(Debug, Clone)]
pub struct Profile {
    pub api_key: Option<String>,
}

/// Mathematical value of a [`Profile`].
pub struct ProfileV {
    pub api_key: Option<Seq<char>>,
}

impl View for Profile {
    type V = ProfileV;

    open spec fn view(&self) -> ProfileV {
        ProfileV { api_key: self.api_key.deep_view() }
    }
}

impl DeepView for Profile {
    type V = ProfileV;

    open spec fn deep_view(&self) -> ProfileV {
        self.view()
    }
}

impl Default for Profile {
    /// An empty profile, with no key stored.
    fn default() -> (r: Self)
        ensures
            r.api_key is None,
    {
        Profile { api_key: None }
    }
}

/// The in-memory contents of the configuration file: named profiles, in
/// the order they were first added.
#[derive(Debug, Clone)]
pub struct ConfigFile {
    pub profiles: Vec<(String, Profile)>,
}

/// The stored profile under a given name: the first entry that carries it.
pub open spec fn spec_profile_lookup(
    entries: Seq<(Seq<char>, ProfileV)>,
    name: Seq<char>,
) -> Option<ProfileV>
    decreases entries.len(),
{
    if entries.len() == 0 {
        None
    } else if entries[0].0 == name {
        Some(entries[0].1)
    } else {
        spec_profile_lookup(entries.drop_first(), name)
    }
}

/// When the first entry named `name` stands at `i`, the lookup yields it.
proof fn lemma_lookup_index(entries: Seq<(Seq<char>, ProfileV)>, name: Seq<char>, i: int)
    requires
        0 <= i < entries.len(),
        entries[i].0 == name,
        forall|k: int| 0 <= k < i ==> entries[k].0 != name,
    ensures
        spec_profile_lookup(entries, name) == Some(entries[i].1),
    decreases i,
{
    if i > 0 {
        let t = entries.drop_first();
        assert(forall|k: int| 0 <= k < t.len() ==> t[k] == entries[k + 1]);
        lemma_lookup_index(t, name, i - 1);
    }
}

/// When no entry carries `name`, the lookup yields nothing.
proof fn lemma_lookup_absent(entries: Seq<(Seq<char>, ProfileV)>, name: Seq<char>)
    requires
        forall|k: int| 0 <= k < entries.len() ==> entries[k].0 != name,
    ensures
        spec_profile_lookup(entries, name) is None,
    decreases entries.len(),
{
    if entries.len() > 0 {
        let t = entries.drop_first();
        assert(forall|k: int| 0 <= k < t.len() ==> t[k] == entries[k + 1]);
        lemma_lookup_absent(t, name);
    }
}

/// Two entry lists of the same names that agree on every entry not named
/// `name` look the same up under every other name.
proof fn lemma_lookup_agree(
    before: Seq<(Seq<char>, ProfileV)>,
    after: Seq<(Seq<char>, ProfileV)>,
    name: Seq<char>,
    other: Seq<char>,
)
    requires
        before.len() == after.len(),
        forall|k: int| 0 <= k < before.len() ==> after[k].0 == before[k].0,
        forall|k: int| 0 <= k < before.len() && before[k].0 != name ==> after[k] == before[k],
        other != name,
    ensures
        spec_profile_lookup(after, other) == spec_profile_lookup(before, other),
    decreases before.len(),
{
    if before.len() > 0 {
        let tb = before.drop_first();
        let ta = after.drop_first();
        assert(forall|k: int| 0 <= k < tb.len() ==> tb[k] == before[k + 1]);
        assert(forall|k: int| 0 <= k < ta.len() ==> ta[k] == after[k + 1]);
        if before[0].0 == other {
            assert(after[0] == before[0]);
        } else {
            assert(after[0].0 != other);
            lemma_lookup_agree(tb, ta, name, other);
        }
    }
}

/// Appending an entry that does not carry `other` leaves the lookup of
/// `other` unchanged.
proof fn lemma_lookup_append(
    before: Seq<(Seq<char>, ProfileV)>,
    after: Seq<(Seq<char>, ProfileV)>,
    other: Seq<char>,
)
    requires
        after.len() == before.len() + 1,
        forall|k: int| 0 <= k < before.len() ==> after[k] == before[k],
        after[before.len() as int].0 != other,
    ensures
        spec_profile_lookup(after, other) == spec_profile_lookup(before, other),
    decreases before.len(),
{
    let ta = after.drop_first();
    assert(forall|k: int| 0 <= k < ta.len() ==> ta[k] == after[k + 1]);
    if before.len() == 0 {
        lemma_lookup_absent(after, other);
    } else {
        let tb = before.drop_first();
        assert(forall|k: int| 0 <= k < tb.len() ==> tb[k] == before[k + 1]);
        if before[0].0 != other {
            lemma_lookup_append(tb, ta, other);
        }
    }
}

/// Each name occurs at most once among the entries.
pub open spec fn spec_names_unique(entries: Seq<(Seq<char>, ProfileV)>) -> bool {
    forall|i: int, j: int|
        0 <= i < j < entries.len() ==> (#[trigger] entries[i].0) != (#[trigger] entries[j].0)
}

impl ConfigFile {
    /// Profile names occur at most once.
    pub open spec fn wf(&self) -> bool {
        spec_names_unique(self.profiles.deep_view())
    }

    /// The stored profile under `name`, if any.
    pub open spec fn spec_profile(&self, name: Seq<char>) -> Option<ProfileV> {
        spec_profile_lookup(self.profiles.deep_view(), name)
    }
}

impl Default for ConfigFile {
    /// A file with no profiles at all.
    fn default() -> (r: Self)
        ensures
            r.profiles@.len() == 0,
            r.wf(),
    {
        ConfigFile { profiles: Vec::new() }
    }
}

/// Runtime configuration with every value resolved.
#[derive(Debug, Clone)]
pub struct Config {
    pub api_key: Option<String>,
    pub profile: String,
    pub format: OutputFormat,
    pub output: Option<String>,
    pub verbose: bool,
}

impl Default for Config {
    /// No key, the profile named `default`, table output to the terminal.
    fn default() -> (r: Self)
        ensures
            r.api_key is None,
            r.profile@ == "default"@,
            r.format == OutputFormat::Table,
            r.output is None,
            !r.verbose,
    {
        Config {
            api_key: None,
            profile: String::from_str("default"),
            format: OutputFormat::Table,
            output: None,
            verbose: false,
        }
    }
}

/// The profile name a run operates under: the explicit argument when given,
/// otherwise the environment's value, otherwise `default`.
pub open spec fn spec_resolved_profile(
    arg: Option<Seq<char>>,
    env: Option<Seq<char>>,
) -> Seq<char> {
    match arg {
        Some(p) => p,
        None => match env {
            Some(p) => p,
            None => "default"@,
        },
    }
}

/// The key a run authenticates with: the environment's key when set,
/// otherwise the one stored under the resolved profile, otherwise none.
pub open spec fn spec_resolved_key(
    env_key: Option<Seq<char>>,
    stored: Option<ProfileV>,
) -> Option<Seq<char>> {
    match env_key {
        Some(k) => Some(k),
        None => match stored {
            Some(p) => p.api_key,
            None => None,
        },
    }
}

impl Config {
    /// Whether the configuration carries the credentials an operation needs.
    pub fn is_valid(&self) -> (r: bool)
        ensures
            r == (self.api_key is Some),
    {
        self.api_key.is_some()
    }

    /// Resolve a runtime configuration from the explicit arguments, the
    /// environment's profile and key values, and the stored file.
    pub fn resolve(
        profile: Option<&str>,
        format: Option<OutputFormat>,
        output: Option<&str>,
        verbose: bool,
        env_profile: Option<String>,
        env_api_key: Option<String>,
        file: &ConfigFile,
    ) -> (r: Config)
        ensures
            r.profile@ == spec_resolved_profile(profile.deep_view(), env_profile.deep_view()),
            r.api_key.deep_view() == spec_resolved_key(
                env_api_key.deep_view(),
                file.spec_profile(r.profile@),
            ),
            r.format == match format {
                Some(f) => f,
                None => OutputFormat::Table,
            },
            r.output.deep_view() == output.deep_view(),
            r.verbose == verbose,
    {
        let profile_name: String = match profile {
            Some(p) => String::from_str(p),
            None => match env_profile {
                Some(p) => p,
                None => String::from_str("default"),
            },
        };
        let stored = Self::profile_of(file, profile_name.as_str());
        let api_key: Option<String> = match env_api_key {
            Some(k) => Some(k),
            None => match stored {
                Some(p) => p.api_key,
                None => None,
            },
        };
        Config {
            api_key,
            profile: profile_name,
            format: match format {
                Some(f) => f,
                None => OutputFormat::Table,
            },
            output: match output {
                Some(o) => Some(String::from_str(o)),
                None => None,
            },
            verbose,
        }
    }

    /// The stored profile under `name`, copied out of the file.
    pub fn profile_of(file: &ConfigFile, name: &str) -> (r: Option<Profile>)
        ensures
            r.deep_view() == file.spec_profile(name@),
    {
        let ghost entries = file.profiles.deep_view();
        let mut i: usize = 0;
        while i < file.profiles.len()
            invariant
                i <= file.profiles@.len(),
                entries == file.profiles.deep_view(),
                entries.len() == file.profiles@.len(),
                forall|k: int| 0 <= k < i ==> entries[k].0 != name@,
            decreases file.profiles@.len() - i,
        {
            if str_eq(file.profiles[i].0.as_str(), name) {
                let found = &file.profiles[i].1;
                let key: Option<String> = match &found.api_key {
                    Some(s) => Some(s.clone()),
                    None => None,
                };
                proof {
                    lemma_lookup_index(entries, name@, i as int);
                }
                return Some(Profile { api_key: key });
            }
            i = i + 1;
        }
        proof {
            lemma_lookup_absent(entries, name@);
        }
        None
    }

    /// Store `api_key` under `profile_name`: an existing entry of that name
    /// is replaced in place, a new name is appended at the end.  Every other
    /// profile is untouched.
    pub fn set_profile(file: &mut ConfigFile, profile_name: &str, api_key: &str)
        requires
            old(file).wf(),
        ensures
            final(file).wf(),
            final(file).spec_profile(profile_name@) == Some(
                ProfileV { api_key: Some(api_key@) },
            ),
            forall|other: Seq<char>| other != profile_name@ ==> final(file).spec_profile(other)
                == old(file).spec_profile(other),
    {
        let entry = Profile { api_key: Some(String::from_str(api_key)) };
        let ghost entries = file.profiles.deep_view();
        let mut i: usize = 0;
        while i < file.profiles.len()
            invariant
                i <= file.profiles@.len(),
                file == old(file),
                entry@ == (ProfileV { api_key: Some(api_key@) }),
                entries == file.profiles.deep_view(),
                entries.len() == file.profiles@.len(),
                spec_names_unique(entries),
                forall|k: int| 0 <= k < i ==> entries[k].0 != profile_name@,
            decreases file.profiles@.len() - i,
        {
            if str_eq(file.profiles[i].0.as_str(), profile_name) {
                let name = file.profiles[i].0.clone();
                file.profiles.remove(i);
                file.profiles.insert(i, (name, entry));
                proof {
                    let newe = file.profiles.deep_view();
                    assert forall|k: int| 0 <= k < entries.len() && k != i implies newe[k]
                        == entries[k] by {
                        assert(file.profiles@[k] == old(file).profiles@[k]);
                    }
                    assert(newe[i as int].0 == entries[i as int].0);
                    assert(newe[i as int].1 == (ProfileV { api_key: Some(api_key@) }));
                    assert(forall|k: int| 0 <= k < entries.len() ==> newe[k].0 == entries[k].0);
                    assert(spec_names_unique(entries));
                    assert forall|a: int, b: int| 0 <= a < b < newe.len() implies (
                    #[trigger] newe[a].0) != (#[trigger] newe[b].0) by {
                        assert(newe.len() == entries.len());
                        assert(newe[a].0 == entries[a].0);
                        assert(newe[b].0 == entries[b].0);
                    }
                    assert(file.wf());
                    lemma_lookup_index(newe, profile_name@, i as int);
                    assert forall|other: Seq<char>| other != profile_name@ implies
                        spec_profile_lookup(newe, other) == spec_profile_lookup(
                        entries,
                        other,
                    ) by {
                        lemma_lookup_agree(entries, newe, profile_name@, other);
                    }
                }
                return ;
            }
            i = i + 1;
        }
        file.profiles.push((String::from_str(profile_name), entry));
        proof {
            let newe = file.profiles.deep_view();
            assert(newe.len() == entries.len() + 1);
            assert(forall|k: int| 0 <= k < entries.len() ==> newe[k] == entries[k]);
            assert(newe[entries.len() as int].0 == profile_name@);
            assert(newe[entries.len() as int].1 == (ProfileV { api_key: Some(api_key@) }));
            assert(spec_names_unique(entries));
            assert forall|a: int, b: int| 0 <= a < b < newe.len() implies (#[trigger] newe[a].0)
                != (#[trigger] newe[b].0) by {
                assert(newe[a] == entries[a]);
                if b < entries.len() {
                    assert(newe[b] == entries[b]);
                } else {
                    assert(newe[b].0 == profile_name@);
                }
            }
            assert(file.wf());
            lemma_lookup_index(newe, profile_name@, entries.len() as int);
            assert forall|other: Seq<char>| other != profile_name@ implies spec_profile_lookup(
                newe,
                other,
            ) == spec_profile_lookup(entries, other) by {
                lemma_lookup_append(entries, newe, other);
            }
        }
    }

    /// The names of all stored profiles, in stored order.
    pub fn list_profiles(file: &ConfigFile) -> (r: Vec<String>)
        ensures
            r.deep_view() =~= Seq::new(
                file.profiles.deep_view().len(),
                |i: int| file.profiles.deep_view()[i].0,
            ),
    {
        let ghost entries = file.profiles.deep_view();
        let mut names: Vec<String> = Vec::new();
        let mut i: usize = 0;
        while i < file.profiles.len()
            invariant
                i <= file.profiles@.len(),
                entries == file.profiles.deep_view(),
                entries.len() == file.profiles@.len(),
                names@.len() == i,
                forall|k: int| 0 <= k < i ==> names@[k]@ == entries[k].0,
            decreases file.profiles@.len() - i,
        {
            names.push(file.profiles[i].0.clone());
            i = i + 1;
        }
        proof {
            assert(names.deep_view() =~= Seq::new(entries.len(), |i: int| entries[i].0));
        }
        names
    }

    /// Mask a secret key for display: a key of more than eight characters
    /// shows its first eight followed by exactly eight asterisks; a shorter
    /// key is replaced by asterisks of the same length.
    pub fn mask_key(key: &str) -> (r: String)
        ensures
            key@.len() <= 8 ==> r@ =~= Seq::new(key@.len(), |i: int| '*'),
            key@.len() > 8 ==> r@ =~= key@.take(8) + Seq::new(8, |i: int| '*'),
    {
        let n = key.unicode_len();
        let mut out = String::new();
        if n <= 8 {
            let mut i: usize = 0;
            while i < n
                invariant
                    i <= n,
                    n == key@.len(),
                    out@ =~= Seq::new(i as nat, |k: int| '*'),
                decreases n - i,
            {
                out.push('*');
                proof {
                    assert(out@ =~= Seq::new((i + 1) as nat, |k: int| '*'));
                }
                i = i + 1;
            }
        } else {
            let mut i: usize = 0;
            while i < 8
                invariant
                    i <= 8,
                    8 < n == key@.len(),
                    out@ =~= key@.take(i as int),
                decreases 8 - i,
            {
                out.push(key.get_char(i));
                proof {
                    assert(out@ =~= key@.take(i + 1 as int));
                }
                i = i + 1;
            }
            out.append("********");
            proof {
                reveal_strlit("********");
                assert(out@ =~= key@.take(8) + Seq::new(8, |i: int| '*'));
            }
        }
        out
    }
}

/// Arguments shared by every command: output selection and the profile to
/// run under.
#[derive(Debug, Clone)]
pub struct CommonArgs {
    pub json: bool,
    pub output: Option<String>,
    pub profile: Option<String>,
    pub verbose: bool,
}

impl CommonArgs {
    /// The output format the arguments select.
    pub fn format(&self) -> (r: OutputFormat)
        ensures
            r == if self.json {
                OutputFormat::Json
            } else {
                OutputFormat::Table
            },
    {
        if self.json {
            OutputFormat::Json
        } else {
            OutputFormat::Table
        }
    }
}

/// Resolve the runtime configuration for a command from its common
/// arguments, the environment's profile and key values, and the stored
/// configuration file.
pub fn build_config(
    args: &CommonArgs,
    env_profile: Option<String>,
    env_api_key: Option<String>,
    file: &ConfigFile,
) -> (r: Config)
    ensures
        r.profile@ == spec_resolved_profile(args.profile.deep_view(), env_profile.deep_view()),
        r.api_key.deep_view() == spec_resolved_key(
            env_api_key.deep_view(),
            file.spec_profile(r.profile@),
        ),
        r.format == if args.json {
            OutputFormat::Json
        } else {
            OutputFormat::Table
        },
        r.output.deep_view() == args.output.deep_view(),
        r.verbose == args.verbose,
{
    let profile_arg: Option<&str> = match &args.profile {
        Some(p) => Some(p.as_str()),
        None => None,
    };
    let output_arg: Option<&str> = match &args.output {
        Some(o) => Some(o.as_str()),
        None => None,
    };
    Config::resolve(
        profile_arg,
        Some(args.format()),
        output_arg,
        args.verbose,
        env_profile,
        env_api_key,
        file,
    )
}

} // verus!
