//! Installing and removing extensions: name rules, the checks made before
//! touching the extension directory, and the manifest written for it.
use vstd::prelude::*;

use crate::text::{owned, push_char, push_text, str_in, str_views};

verus! {

/// The top-level commands of pup, which no extension may shadow.
pub const BUILTIN_COMMANDS: [&'static str; 30] = [
    "auth",
    "ddsql",
    "extension",
    "help",
    "llm-obs",
    "logs",
    "logs-restriction",
    "misc",
    "monitors",
    "on-call",
    "organizations",
    "processes",
    "profiling",
    "rum",
    "scorecards",
    "security",
    "service-catalog",
    "skills",
    "slos",
    "software-catalog",
    "static-analysis",
    "symdb",
    "tag-rules",
    "tags",
    "test-optimization",
    "traces",
    "usage",
    "users",
    "version",
    "workflows",
];

/// Whether `name` is a built-in command.
pub fn is_builtin_command(name: &str) -> (b: bool)
    ensures
        b == str_views(BUILTIN_COMMANDS@).contains(name@),
{
    str_in(name, &BUILTIN_COMMANDS)
}

/// A lowercase ASCII letter.
pub open spec fn is_lower(c: char) -> bool {
    'a' <= c && c <= 'z'
}

/// A character allowed after the first one of an extension name.
pub open spec fn name_char_ok(c: char) -> bool {
    is_lower(c) || ('0' <= c && c <= '9') || c == '-'
}

/// The position of the first character after the first that is not
/// allowed, or -1.
pub open spec fn first_bad_char(name: Seq<char>) -> int {
    if exists|i: int| 1 <= i < name.len() && !name_char_ok(name[i]) {
        choose|i: int|
            1 <= i < name.len() && !name_char_ok(name[i]) && forall|j: int| 1 <= j < i ==> name_char_ok(name[j])
    } else {
        -1
    }
}

/// An extension name matches `^[a-z][a-z0-9-]*$` and is not a built-in
/// command; otherwise the error says why.
pub open spec fn extension_name_spec(name: Seq<char>) -> Result<(), Seq<char>> {
    if name.len() == 0 {
        Err("extension name cannot be empty"@)
    } else if !is_lower(name[0]) {
        Err("extension name must start with a lowercase letter, got '"@ + name + "'"@)
    } else if first_bad_char(name) >= 0 {
        Err(
            "extension name '"@ + name + "' contains invalid character '"@ + seq![name[first_bad_char(name)]]
                + "' (only lowercase letters, digits, and hyphens allowed)"@,
        )
    } else if str_views(BUILTIN_COMMANDS@).contains(name) {
        Err("'"@ + name + "' conflicts with a built-in pup command and cannot be used as an extension name"@)
    } else {
        Ok(())
    }
}

/// Validates that an extension name is well-formed and does not conflict
/// with a built-in command.
pub fn validate_extension_name(name: &str) -> (r: Result<(), String>)
    ensures
        match r {
            Ok(_) => extension_name_spec(name@) == Ok::<(), Seq<char>>(()),
            Err(e) => extension_name_spec(name@) == Err::<(), Seq<char>>(e@),
        },
{
    let v = crate::text::chars_of(name);
    if v.len() == 0 {
        return Err(owned("extension name cannot be empty"));
    }
    let first = v[0];
    if !('a' <= first && first <= 'z') {
        let mut e = owned("extension name must start with a lowercase letter, got '");
        push_text(&mut e, name);
        push_text(&mut e, "'");
        return Err(e);
    }
    let mut i: usize = 1;
    while i < v.len()
        invariant
            v@ == name@,
            1 <= i <= v.len(),
            is_lower(v@[0]),
            forall|j: int| 1 <= j < i ==> name_char_ok(v@[j]),
        decreases v.len() - i,
    {
        let c = v[i];
        if !(('a' <= c && c <= 'z') || ('0' <= c && c <= '9') || c == '-') {
            assert(first_bad_char(name@) == i as int) by {
                assert(1 <= i < name@.len() && !name_char_ok(name@[i as int]));
            }
            let mut e = owned("extension name '");
            push_text(&mut e, name);
            push_text(&mut e, "' contains invalid character '");
            push_char(&mut e, c);
            push_text(&mut e, "' (only lowercase letters, digits, and hyphens allowed)");
            assert(e@ =~= "extension name '"@ + name@ + "' contains invalid character '"@ + seq![c]
                + "' (only lowercase letters, digits, and hyphens allowed)"@);
            return Err(e);
        }
        i = i + 1;
    }
    assert(first_bad_char(name@) == -1);
    if is_builtin_command(name) {
        let mut e = owned("'");
        push_text(&mut e, name);
        push_text(&mut e, "' conflicts with a built-in pup command and cannot be used as an extension name");
        return Err(e);
    }
    Ok(())
}

// ---------------------------------------------------------------------------
// Install and remove
// ---------------------------------------------------------------------------

/// The name of an extension's directory and program, `pup-<name>`.
pub open spec fn program_name(name: Seq<char>) -> Seq<char> {
    "pup-"@ + name
}

/// The directory an extension is installed in, under the extensions base.
pub fn extension_dir_name(name: &str) -> (r: String)
    ensures
        r@ == program_name(name@),
{
    let mut r = owned("pup-");
    push_text(&mut r, name);
    r
}

/// The file name of an extension's program: `pup-<name>`, with `.exe` on
/// Windows.
pub fn extension_binary_name(name: &str, windows: bool) -> (r: String)
    ensures
        r@ == if windows {
            program_name(name@) + ".exe"@
        } else {
            program_name(name@)
        },
{
    let mut r = extension_dir_name(name);
    if windows {
        push_text(&mut r, ".exe");
    }
    r
}

/// The checks made before anything is written: a valid name, then an
/// existing source file (shown as `source`).
pub open spec fn install_source_spec(name: Seq<char>, source: Seq<char>, source_exists: bool) -> Result<(), Seq<char>> {
    match extension_name_spec(name) {
        Err(e) => Err(e),
        Ok(_) => if source_exists {
            Ok(())
        } else {
            Err("source file does not exist: "@ + source)
        },
    }
}

/// Checks the name of an extension to install and that its source exists.
pub fn check_install_source(name: &str, source: &str, source_exists: bool) -> (r: Result<(), String>)
    ensures
        match r {
            Ok(_) => install_source_spec(name@, source@, source_exists) == Ok::<(), Seq<char>>(()),
            Err(e) => install_source_spec(name@, source@, source_exists) == Err::<(), Seq<char>>(e@),
        },
{
    match validate_extension_name(name) {
        Err(e) => Err(e),
        Ok(_) => {
            if source_exists {
                Ok(())
            } else {
                let mut e = owned("source file does not exist: ");
                push_text(&mut e, source);
                Err(e)
            }
        },
    }
}

/// Whether an installed extension of that name must be removed first
/// (only with `force`), or the error refusing to overwrite it.
pub open spec fn install_target_spec(name: Seq<char>, installed: bool, force: bool) -> Result<bool, Seq<char>> {
    if installed && !force {
        Err("extension '"@ + name + "' is already installed (use --force to overwrite)"@)
    } else {
        Ok(installed)
    }
}

/// Decides what to do with an extension directory that may already exist.
pub fn check_install_target(name: &str, installed: bool, force: bool) -> (r: Result<bool, String>)
    ensures
        match r {
            Ok(b) => install_target_spec(name@, installed, force) == Ok::<bool, Seq<char>>(b),
            Err(e) => install_target_spec(name@, installed, force) == Err::<bool, Seq<char>>(e@),
        },
{
    if installed && !force {
        let mut e = owned("extension '");
        push_text(&mut e, name);
        push_text(&mut e, "' is already installed (use --force to overwrite)");
        return Err(e);
    }
    Ok(installed)
}

/// Removing an extension needs it installed.
pub open spec fn remove_spec(name: Seq<char>, installed: bool) -> Result<(), Seq<char>> {
    if installed {
        Ok(())
    } else {
        Err("extension '"@ + name + "' is not installed"@)
    }
}

/// Checks that an extension to remove is installed.
pub fn check_remove(name: &str, installed: bool) -> (r: Result<(), String>)
    ensures
        match r {
            Ok(_) => remove_spec(name@, installed) == Ok::<(), Seq<char>>(()),
            Err(e) => remove_spec(name@, installed) == Err::<(), Seq<char>>(e@),
        },
{
    if installed {
        Ok(())
    } else {
        let mut e = owned("extension '");
        push_text(&mut e, name);
        push_text(&mut e, "' is not installed");
        Err(e)
    }
}

/// What `chrono::DateTime::from_timestamp(secs, 0)` followed by
/// `DateTime::to_rfc3339_opts(SecondsFormat::Secs, true)` gives for a count
/// of seconds since the Unix epoch: the ISO 8601 text of that UTC instant in
/// whole seconds with a `Z` suffix (1700000000 gives
/// `2023-11-14T22:13:20Z`), or nothing when the count is outside the range
/// chrono represents.
pub uninterp spec fn utc_iso_from_secs(secs: i64) -> Option<Seq<char>>;

/// Formats a Unix timestamp in seconds as ISO 8601 UTC with
/// `chrono::DateTime::from_timestamp` and `DateTime::to_rfc3339_opts`. The
/// contract claims only that the outcome is the one `utc_iso_from_secs`
/// names for the same count; the range and the text are chrono's.
#[verifier::external_body]
pub(crate) fn utc_iso_of_secs(secs: i64) -> (r: Option<String>)
    ensures
        match r {
            Some(t) => utc_iso_from_secs(secs) == Some(t@),
            None => utc_iso_from_secs(secs).is_none(),
        },
{
    match chrono::DateTime::from_timestamp(secs, 0) {
        Some(d) => Some(d.to_rfc3339_opts(chrono::SecondsFormat::Secs, true)),
        None => None,
    }
}

/// The install time recorded in a manifest, from whole seconds since the
/// Unix epoch: its ISO 8601 UTC time, or nothing when the count is beyond
/// what a date can hold.
pub open spec fn installed_at_spec(secs: u64) -> Option<Seq<char>> {
    if secs <= i64::MAX {
        utc_iso_from_secs(secs as i64)
    } else {
        None
    }
}

/// The install time recorded in a manifest: the ISO 8601 UTC time of the
/// given whole seconds since the Unix epoch.
pub fn installed_at_text(secs: u64) -> (r: Option<String>)
    ensures
        match r {
            Some(t) => installed_at_spec(secs) == Some(t@),
            None => installed_at_spec(secs).is_none(),
        },
{
    if secs <= i64::MAX as u64 {
        utc_iso_of_secs(secs as i64)
    } else {
        None
    }
}

/// What a manifest says of an installed extension.
pub struct ExtensionManifest {
    pub name: String,
    pub version: String,
    pub source: String,
    pub installed_at: String,
    pub binary: String,
    pub description: String,
    pub installed_by_pup: String,
}

/// The manifest of an extension installed from a local file (`source`, as
/// shown), linked or copied.
pub fn local_manifest(
    name: &str,
    link: bool,
    source: &str,
    installed_at: String,
    binary: String,
    description: Option<&str>,
    pup_version: &str,
) -> (m: ExtensionManifest)
    ensures
        m.name@ == name@,
        m.version@ == "unknown"@,
        m.source@ == if link {
            "local-link:"@ + source@
        } else {
            "local:"@ + source@
        },
        m.installed_at@ == installed_at@,
        m.binary@ == binary@,
        m.description@ == match description {
            Some(d) => d@,
            None => Seq::<char>::empty(),
        },
        m.installed_by_pup@ == pup_version@,
{
    let mut src = if link {
        owned("local-link:")
    } else {
        owned("local:")
    };
    push_text(&mut src, source);
    let desc = match description {
        Some(d) => owned(d),
        None => String::new(),
    };
    ExtensionManifest {
        name: owned(name),
        version: owned("unknown"),
        source: src,
        installed_at,
        binary,
        description: desc,
        installed_by_pup: owned(pup_version),
    }
}

} // verus!
