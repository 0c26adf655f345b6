//! The per-repository configuration store.
//!
//! Entries live in a dedicated git-config file, separate from any
//! repository's own configuration, under composite keys of the form
//! `<repository-name>.<key>`. A key may carry an ordered list of values;
//! adding a value always appends, never replaces.
//!
//! The backend is modelled by two ghost functions of an opened handle:
//! `config_entries`, the ordered values it holds under each normalized
//! key, and `app_layers`, how many application-level file layers it was
//! built with. The store opens the dedicated file fresh per logical
//! operation and is the file's only writer while a handle is held, so a
//! handle's contents change only through the operations below.

use crate::errors::StoreError;
use crate::paths::dedicated_config_path;
use crate::paths::resolve_config_path;
use vstd::prelude::*;

verus! {

#[verifier::external_type_specification]
#[verifier::external_body]
pub struct ExConfig(git2::Config);

#[verifier::external_type_specification]
#[verifier::external_body]
pub struct ExGitError(git2::Error);

/// What one opened handle holds: for each normalized composite key, the
/// ordered values configured under it. A value is `None` where the backend
/// holds an entry that has no text (a bare key, or text that is not valid
/// UTF-8).
pub uninterp spec fn config_entries(c: git2::Config) -> Map<Seq<char>, Seq<Option<Seq<char>>>>;

/// How many application-level file registrations were made on a handle:
/// each add of a file at the application level counts one, whether or not
/// it displaced an earlier layer.
pub uninterp spec fn app_layers(c: git2::Config) -> nat;

/// The backend's normal form of a configuration key name, under which it
/// files the key's entries (git folds the case of the section and variable
/// parts).
pub uninterp spec fn normalized_key(name: Seq<char>) -> Seq<char>;

/// The values under key `k` in model `m`: the key's sequence, or the empty
/// sequence where the key has no entry at all.
pub open spec fn values_of(
    m: Map<Seq<char>, Seq<Option<Seq<char>>>>,
    k: Seq<char>,
) -> Seq<Option<Seq<char>>> {
    if m.dom().contains(k) {
        m[k]
    } else {
        Seq::empty()
    }
}

/// The readable values of a sequence of backend entries, in order,
/// skipping entries that carry no text.
pub open spec fn somes_of(s: Seq<Option<Seq<char>>>) -> Seq<Seq<char>>
    decreases s.len(),
{
    if s.len() == 0 {
        Seq::empty()
    } else {
        somes_of(s.drop_last()) + match s.last() {
            Some(v) => seq![v],
            None => Seq::empty(),
        }
    }
}

/// Whether every entry of a value list carries readable text — none is a
/// bare name (git's boolean shorthand) or non-UTF-8.
pub open spec fn all_readable(s: Seq<Option<Seq<char>>>) -> bool {
    forall|i: int| 0 <= i < s.len() ==> s[i] is Some
}

/// What a caller reads back under normalized key `nk`: the readable values
/// in insertion order.
pub open spec fn entries_view(
    m: Map<Seq<char>, Seq<Option<Seq<char>>>>,
    nk: Seq<char>,
) -> Seq<Seq<char>> {
    somes_of(values_of(m, nk))
}

/// The model of a handle with nothing behind it: no key has any entry.
pub open spec fn empty_model() -> Map<Seq<char>, Seq<Option<Seq<char>>>> {
    Map::empty()
}

/// The model after appending value `v` under normalized key `nk`: the
/// key's values gain `v` at the end; every other key is untouched.
pub open spec fn store_after_add(
    m: Map<Seq<char>, Seq<Option<Seq<char>>>>,
    nk: Seq<char>,
    v: Seq<char>,
) -> Map<Seq<char>, Seq<Option<Seq<char>>>> {
    m.insert(nk, values_of(m, nk).push(Some(v)))
}

/// One character of a value in the backend's escaped file form: newline,
/// tab, backspace, double quote and backslash become two-character escape
/// sequences; every other character stands for itself.
pub open spec fn escaped_char(c: char) -> Seq<char> {
    if c == '\\' {
        seq!['\\', '\\']
    } else if c == '"' {
        seq!['\\', '"']
    } else if c == '\n' {
        seq!['\\', 'n']
    } else if c == '\t' {
        seq!['\\', 't']
    } else if c == '\u{0008}' {
        seq!['\\', 'b']
    } else {
        seq![c]
    }
}

/// A value in the backend's escaped file form.
pub open spec fn escaped(s: Seq<char>) -> Seq<char>
    decreases s.len(),
{
    if s.len() == 0 {
        Seq::empty()
    } else {
        escaped(s.drop_last()) + escaped_char(s.last())
    }
}

/// A value the backend's file grammar stores without loss: free of the
/// whitespace characters the parser strips at a value's ends (carriage
/// return, vertical tab, form feed). Every other character — newline,
/// tab, backspace, quote, backslash, spaces, comment signs — is protected
/// by escaping or quoting.
pub open spec fn writable_value(v: Seq<char>) -> bool {
    forall|i: int|
        0 <= i < v.len() ==> v[i] != '\r' && v[i] != '\u{000B}' && v[i] != '\u{000C}'
}

/// Puts a value into the backend's escaped file form.
fn escape_config_value(s: &str) -> (r: String)
    ensures
        r@ == escaped(s@),
{
    let n = s.unicode_len();
    let mut r = String::new();
    let mut i: usize = 0;
    while i < n
        invariant
            i <= n,
            n == s@.len(),
            r@ == escaped(s@.take(i as int)),
        decreases n - i,
    {
        let c = s.get_char(i);
        if c == '\\' {
            r.append("\\\\");
            proof {
                reveal_strlit("\\\\");
            }
        } else if c == '"' {
            r.append("\\\"");
            proof {
                reveal_strlit("\\\"");
            }
        } else if c == '\n' {
            r.append("\\n");
            proof {
                reveal_strlit("\\n");
            }
        } else if c == '\t' {
            r.append("\\t");
            proof {
                reveal_strlit("\\t");
            }
        } else if c == '\u{0008}' {
            r.append("\\b");
            proof {
                reveal_strlit("\\b");
            }
        } else {
            r.append(s.substring_char(i, i + 1));
            proof {
                assert(s@.subrange(i as int, i + 1) =~= seq![s@[i as int]]);
            }
        }
        proof {
            assert(s@.take(i + 1).drop_last() =~= s@.take(i as int));
            assert(s@.take(i + 1).last() == s@[i as int]);
            assert(r@ =~= escaped(s@.take(i + 1)));
        }
        i = i + 1;
    }
    proof {
        assert(s@.take(n as int) =~= s@);
    }
    r
}

/// The composite key under which an entry lives in the dedicated
/// configuration file: the repository name and the configuration key,
/// joined by a dot.
pub open spec fn composite_key_spec(repo_name: Seq<char>, key: Seq<char>) -> Seq<char> {
    repo_name + seq!['.'] + key
}

/// Builds the composite key `<repo_name>.<key>`.
pub fn composite_key(repo_name: &str, key: &str) -> (r: String)
    ensures
        r@ == composite_key_spec(repo_name@, key@),
{
    proof {
        reveal_strlit(".");
    }
    let mut s = repo_name.to_owned();
    s.append(".");
    s.append(key);
    proof {
        assert(s@ =~= composite_key_spec(repo_name@, key@));
    }
    s
}

/// Relies on git2::Config::find_xdg: the path of the XDG-style git
/// configuration, if one can be located; a path that is not valid UTF-8
/// counts as not found.
#[verifier::external_body]
fn find_xdg_path() -> (r: Option<String>) {
    match git2::Config::find_xdg() {
        Ok(p) => p.into_os_string().into_string().ok(),
        Err(_) => None,
    }
}

/// Relies on git2::Config::find_global: the path of the user's global git
/// configuration, if one can be located; a path that is not valid UTF-8
/// counts as not found.
#[verifier::external_body]
fn find_global_path() -> (r: Option<String>) {
    match git2::Config::find_global() {
        Ok(p) => p.into_os_string().into_string().ok(),
        Err(_) => None,
    }
}

/// Relies on git2::Config::open (libgit2 git_config_open_ondisk): a handle
/// over the one on-disk file, added at the local level, so with no
/// application-level layer.
#[verifier::external_body]
fn config_open(path: &str) -> (r: Result<git2::Config, git2::Error>)
    ensures
        r matches Ok(c) ==> app_layers(c) == 0,
{
    git2::Config::open(std::path::Path::new(path))
}

/// Relies on git2::Config::new: a configuration object with no file behind
/// it, so empty and with no application-level layer.
#[verifier::external_body]
fn config_new() -> (r: Result<git2::Config, git2::Error>)
    ensures
        r matches Ok(c) ==> app_layers(c) == 0,
        r matches Ok(c) ==> config_entries(c) == empty_model(),
{
    git2::Config::new()
}

/// Relies on git2::Config::add_file with ConfigLevel::App: the on-disk
/// file at `path` becomes one further layer of the handle, at the
/// application level.
#[verifier::external_body]
fn config_add_app_file(c: &mut git2::Config, path: &str) -> (r: Result<(), git2::Error>)
    ensures
        r is Ok ==> app_layers(*final(c)) == app_layers(*old(c)) + 1,
{
    c.add_file(std::path::Path::new(path), git2::ConfigLevel::App, true)
}

/// Relies on git2::Config::multivar (libgit2's multivar iterator): on
/// success it yields the entries under the normalized key in the order the
/// backend holds them — none at all for an unset key — and an entry
/// without text, or with text that is not valid UTF-8, is handed back as
/// absent.
#[verifier::external_body]
fn config_multivar_values(c: &git2::Config, name: &str) -> (r: Result<
    Vec<Option<String>>,
    git2::Error,
>)
    ensures
        r matches Ok(v) ==> v.deep_view() == values_of(
            config_entries(*c),
            normalized_key(name@),
        ),
{
    let entries = c.multivar(name, None)?;
    let mut out: Vec<Option<String>> = Vec::new();
    entries.for_each(|e| {
        if e.has_value() {
            out.push(e.value().ok().map(|s| s.to_string()));
        } else {
            out.push(None);
        }
    })?;
    Ok(out)
}

/// Relies on git2::Config::set_multivar with a value pattern that matches
/// no string: libgit2 then replaces nothing and writes the argument as a
/// new entry after every existing entry of the file, so the key's values
/// gain it at the end and every other key keeps its values. The text is
/// written without further escaping (only quoted for a leading or
/// trailing space, an empty value, or a comment sign), so what the entry
/// reads back as is promised only of text in escaped form whose value the
/// file grammar stores without loss: such text parses back to exactly the
/// value it escapes. libgit2 matches the pattern against the value of
/// every existing entry of the key and reads a missing value out of
/// bounds, so the key must hold no entry without text.
#[verifier::external_body]
fn config_append_value(c: &mut git2::Config, name: &str, value: &str) -> (r: Result<
    (),
    git2::Error,
>)
    requires
        all_readable(values_of(config_entries(*old(c)), normalized_key(name@))),
    ensures
        r is Ok ==> forall|v: Seq<char>|
            value@ == #[trigger] escaped(v) && writable_value(v) ==> config_entries(*final(c))
                == store_after_add(config_entries(*old(c)), normalized_key(name@), v),
        r is Ok ==> app_layers(*final(c)) == app_layers(*old(c)),
{
    c.set_multivar(name, "(?!)", value)
}

/// Relies on git2::Error::message: the backend's own text for the error.
#[verifier::external_body]
fn git_error_message(e: &git2::Error) -> (r: String) {
    e.message().to_string()
}

/// Locates the dedicated configuration file's path: beside the XDG-style
/// git configuration if one is found, else beside the user's global one,
/// and fails with a location error only when neither exists.
pub fn get_config_path() -> (r: Result<String, StoreError>)
    ensures
        r matches Ok(p) ==> exists|d: Seq<char>|
            p@ == crate::paths::with_file_name(d, crate::paths::dedicated_file_name()),
        r matches Err(e) ==> e is Location,
{
    let xdg = find_xdg_path();
    let global = find_global_path();
    let discovered = resolve_config_path(xdg, global)?;
    let dedicated = dedicated_config_path(discovered.as_str());
    proof {
        assert(dedicated@ == crate::paths::with_file_name(
            discovered@,
            crate::paths::dedicated_file_name(),
        ));
    }
    Ok(dedicated)
}

/// Opens the store over the dedicated file at `path`. `file_existed` says
/// whether the file was already there before this logical operation
/// (callers create a missing file, and its directories, first).
///
/// A file that already existed is opened plainly; only a freshly created
/// one is registered as an application-level layer. So re-opening an
/// already-created store never registers the application-level layer a
/// second time: on a handle over a pre-existing file, `app_layers` is `0`.
pub fn open_store(path: &str, file_existed: bool) -> (r: Result<git2::Config, StoreError>)
    ensures
        r matches Ok(c) ==> app_layers(c) == (if file_existed {
            0nat
        } else {
            1nat
        }),
        r matches Err(e) ==> e.is_backend(),
{
    if file_existed {
        match config_open(path) {
            Ok(c) => Ok(c),
            Err(e) => Err(StoreError::Backend(git_error_message(&e))),
        }
    } else {
        let mut c = match config_new() {
            Ok(c) => c,
            Err(e) => return Err(StoreError::Backend(git_error_message(&e))),
        };
        match config_add_app_file(&mut c, path) {
            Ok(()) => Ok(c),
            Err(e) => Err(StoreError::Backend(git_error_message(&e))),
        }
    }
}

/// Reads every value configured under `<repo_name>.<key>`, in insertion
/// order. A key with no entries yields the empty list, not an error; an
/// entry whose text cannot be read is skipped; only a backend failure is
/// an error.
pub fn get_config_entries(config: &git2::Config, repo_name: &str, key: &str) -> (r: Result<
    Vec<String>,
    StoreError,
>)
    ensures
        r matches Ok(v) ==> v.deep_view() == entries_view(
            config_entries(*config),
            normalized_key(composite_key_spec(repo_name@, key@)),
        ),
        r matches Err(e) ==> e.is_backend(),
{
    let ck = composite_key(repo_name, key);
    let raw = match config_multivar_values(config, ck.as_str()) {
        Ok(v) => v,
        Err(e) => {
            return Err(StoreError::Backend(git_error_message(&e)));
        },
    };
    let mut out: Vec<String> = Vec::new();
    let mut i: usize = 0;
    proof {
        assert(somes_of(raw.deep_view().take(0)) =~= out.deep_view());
    }
    while i < raw.len()
        invariant
            i <= raw@.len(),
            raw.deep_view() == values_of(
                config_entries(*config),
                normalized_key(composite_key_spec(repo_name@, key@)),
            ),
            out.deep_view() == somes_of(raw.deep_view().take(i as int)),
        decreases raw@.len() - i,
    {
        let ghost prev = out.deep_view();
        match &raw[i] {
            Some(s) => {
                out.push(s.clone());
            },
            None => {},
        }
        proof {
            assert(raw.deep_view().take(i + 1).drop_last() =~= raw.deep_view().take(i as int));
            assert(raw.deep_view().take(i + 1).last() == raw.deep_view()[i as int]);
            if raw@[i as int] is Some {
                assert(out.deep_view() =~= prev + seq![raw.deep_view()[i as int]->Some_0]);
            }
            assert(out.deep_view() =~= somes_of(raw.deep_view().take(i + 1)));
        }
        i = i + 1;
    }
    proof {
        assert(raw.deep_view().take(raw.deep_view().len() as int) =~= raw.deep_view());
    }
    Ok(out)
}

/// Reads the single value configured under `<repo_name>.<key>`: the last
/// readable value, where several are configured. Fails with a missing-key
/// error exactly when the key has no readable value, and with a backend
/// error only when the backend itself fails.
pub fn get_config_entry(config: &git2::Config, repo_name: &str, key: &str) -> (r: Result<
    String,
    StoreError,
>)
    ensures
        r matches Ok(s) ==> entries_view(
            config_entries(*config),
            normalized_key(composite_key_spec(repo_name@, key@)),
        ).len() > 0 && s@ == entries_view(
            config_entries(*config),
            normalized_key(composite_key_spec(repo_name@, key@)),
        ).last(),
        r matches Err(e) ==> e.is_missing_key() || e.is_backend(),
        r matches Err(e) && e.is_missing_key() ==> entries_view(
            config_entries(*config),
            normalized_key(composite_key_spec(repo_name@, key@)),
        ).len() == 0,
{
    let entries = get_config_entries(config, repo_name, key)?;
    if entries.len() == 0 {
        Err(StoreError::MissingKey)
    } else {
        let s = entries[entries.len() - 1].clone();
        proof {
            assert(s@ == entries.deep_view().last());
        }
        Ok(s)
    }
}

/// Appends `new_value` under `<repo_name>.<key>`: every value already
/// configured under the key stays, in its place, and the new value comes
/// last. The value is escaped for the backend's file grammar, so newline,
/// tab, backspace, quote, backslash, spaces and comment signs all read
/// back exactly; only a value the grammar cannot store without loss (one
/// holding a carriage return, vertical tab or form feed, whitespace the
/// parser strips at a value's ends) is outside the promise. A key already
/// holding an entry without text (a bare name line, git's boolean
/// shorthand) cannot be appended to: that fails with a backend-kind
/// error before anything is written, as does any backend failure.
pub fn add_config_entry(
    config: &mut git2::Config,
    repo_name: &str,
    key: &str,
    new_value: &str,
) -> (r: Result<(), StoreError>)
    ensures
        r is Ok && writable_value(new_value@) ==> config_entries(*final(config))
            == store_after_add(
            config_entries(*old(config)),
            normalized_key(composite_key_spec(repo_name@, key@)),
            new_value@,
        ),
        r is Ok ==> app_layers(*final(config)) == app_layers(*old(config)),
        r matches Err(e) ==> e.is_backend(),
        !all_readable(
            values_of(
                config_entries(*old(config)),
                normalized_key(composite_key_spec(repo_name@, key@)),
            ),
        ) ==> r is Err,
{
    let ck = composite_key(repo_name, key);
    let raw = match config_multivar_values(config, ck.as_str()) {
        Ok(v) => v,
        Err(e) => {
            return Err(StoreError::Backend(git_error_message(&e)));
        },
    };
    let mut i: usize = 0;
    while i < raw.len()
        invariant
            i <= raw@.len(),
            forall|j: int| 0 <= j < i ==> raw.deep_view()[j] is Some,
        decreases raw@.len() - i,
    {
        match &raw[i] {
            Some(_) => {
                proof {
                    assert(raw.deep_view()[i as int] is Some);
                }
            },
            None => {
                return Err(StoreError::Backend(String::from_str(
                    "cannot append to a key holding an entry without a value",
                )));
            },
        }
        i = i + 1;
    }
    proof {
        assert(all_readable(raw.deep_view()));
    }
    let escaped_value = escape_config_value(new_value);
    match config_append_value(config, ck.as_str(), escaped_value.as_str()) {
        Ok(()) => {
            proof {
                assert(escaped_value@ == escaped(new_value@));
            }
            Ok(())
        },
        Err(e) => Err(StoreError::Backend(git_error_message(&e))),
    }
}

/// Skipping unreadable entries commutes with appending a readable one.
proof fn lemma_somes_of_push(s: Seq<Option<Seq<char>>>, v: Seq<char>)
    ensures
        somes_of(s.push(Some(v))) == somes_of(s).push(v),
{
    assert(s.push(Some(v)).drop_last() =~= s);
    assert(somes_of(s.push(Some(v))) =~= somes_of(s).push(v));
}

/// Append semantics of the store: after adding `v` under a repository name
/// and key, the entries read back for that same name and key are exactly
/// the entries read before, in their order, with `v` as the new last
/// element — an add never replaces.
pub proof fn lemma_add_entry_appends(
    m: Map<Seq<char>, Seq<Option<Seq<char>>>>,
    repo_name: Seq<char>,
    key: Seq<char>,
    v: Seq<char>,
)
    ensures
        entries_view(
            store_after_add(m, normalized_key(composite_key_spec(repo_name, key)), v),
            normalized_key(composite_key_spec(repo_name, key)),
        ) == entries_view(m, normalized_key(composite_key_spec(repo_name, key))).push(v),
{
    let nk = normalized_key(composite_key_spec(repo_name, key));
    lemma_somes_of_push(values_of(m, nk), v);
}

/// A key with no entry at all reads back as the empty list of values.
pub proof fn lemma_unset_key_reads_empty(
    m: Map<Seq<char>, Seq<Option<Seq<char>>>>,
    nk: Seq<char>,
)
    requires
        !m.dom().contains(nk),
    ensures
        entries_view(m, nk) == Seq::<Seq<char>>::empty(),
{
}

} // verus!
