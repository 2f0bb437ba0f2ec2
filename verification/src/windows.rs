//! Windows: the folders of a user profile, uninstall entries of the
//! registry (values decoded from UTF-16, `%VARIABLE%` references expanded),
//! the file lists the shell's recycle operation takes and what a Recycle Bin
//! run moved or failed, applications found in
//! the registry and the Start Menu, and finding a running application's
//! processes.

use vstd::prelude::*;

use crate::model::AppInfo;
use crate::orphan::{slashed, slashed_chars};
use crate::paths::{file_name, file_name_of, file_stem, file_stem_of};
use crate::platform::{SystemPaths, Trash};
use crate::trash::{DeleteResult, FilePair};
use crate::text::{
    ascii_lower_seq, chars_eq, chars_of, concat, contains, ends, ends_with_str, has_sub, lines,
    lines_of, opt_seq, owned, sseqs, string_of, to_ascii_lower_chars, vseqs,
};
use crate::unicode::{str_to_lower, unicode_str_lower};
use crate::utf16::{before_nul, encode_utf16, narrow, utf16_text, utf16_units};

verus! {

// ---------------------------------------------------------------------------
// Uninstall entries
// ---------------------------------------------------------------------------

/// The registry type of a plain text value.
pub const REG_SZ: u32 = 1;

/// The registry type of a text value with `%VARIABLE%` references.
pub const REG_EXPAND_SZ: u32 = 2;

/// An application's uninstall entry in the registry.
#[derive(Debug)]
pub struct UninstallEntry {
    pub display_name: String,
    pub install_location: Option<String>,
    pub display_icon: Option<String>,
    pub publisher: Option<String>,
    pub uninstall_string: Option<String>,
}

/// Little-endian 16-bit units of raw bytes (a last odd byte is ignored).
pub open spec fn le_units(raw: Seq<u8>) -> Seq<u16> {
    Seq::new(raw.len() / 2, |i: int| (raw[2 * i] + 256 * raw[2 * i + 1]) as u16)
}

/// The value of the variable `name` in `env` (names compared ignoring ASCII
/// case; the first entry counts).
pub open spec fn env_value(env: Seq<(Seq<char>, Seq<char>)>, name: Seq<char>) -> Option<Seq<char>>
    decreases env.len(),
{
    if env.len() == 0 {
        None
    } else if ascii_lower_seq(env[0].0) == ascii_lower_seq(name) {
        Some(env[0].1)
    } else {
        env_value(env.drop_first(), name)
    }
}

/// The index of the first `%` in `s` (its length when there is none).
pub open spec fn percent_at(s: Seq<char>) -> int
    decreases s.len(),
{
    if s.len() == 0 {
        0
    } else if s[0] == '%' {
        0
    } else {
        1 + percent_at(s.drop_first())
    }
}

/// A text with each `%NAME%` replaced by the value of `NAME` in `env`;
/// references to unknown variables and a `%` without a closing one stay as
/// they are.
pub open spec fn expand_vars(s: Seq<char>, env: Seq<(Seq<char>, Seq<char>)>) -> Seq<char>
    decreases s.len(),
{
    if s.len() == 0 {
        s
    } else if s[0] != '%' {
        seq![s[0]] + expand_vars(s.drop_first(), env)
    } else {
        let rest = s.drop_first();
        let j = percent_at(rest);
        if !(0 <= j < rest.len()) {
            s
        } else {
            let name = rest.take(j);
            let after = rest.skip(j + 1);
            match env_value(env, name) {
                Some(v) => v + expand_vars(after, env),
                None => seq!['%'] + name + seq!['%'] + expand_vars(after, env),
            }
        }
    }
}

/// `percent_at` is an index into the text or its length, with no `%` before.
proof fn lemma_percent_at(s: Seq<char>)
    ensures
        0 <= percent_at(s) <= s.len(),
        percent_at(s) < s.len() ==> s[percent_at(s)] == '%',
        forall|k: int| 0 <= k < percent_at(s) ==> s[k] != '%',
    decreases s.len(),
{
    if s.len() > 0 && s[0] != '%' {
        lemma_percent_at(s.drop_first());
        assert forall|k: int| 0 <= k < percent_at(s) implies s[k] != '%' by {
            if k > 0 {
                assert(s[k] == s.drop_first()[k - 1]);
            }
        }
    }
}

/// The view of an environment.
pub open spec fn env_view(env: Seq<(String, String)>) -> Seq<(Seq<char>, Seq<char>)> {
    env.map_values(|e: (String, String)| (e.0@, e.1@))
}

/// The value of a variable (see `env_value`).
fn lookup_env(env: &Vec<(String, String)>, name: &[char]) -> (r: Option<String>)
    ensures
        opt_seq(r) == env_value(env_view(env@), name@),
{
    let want = to_ascii_lower_chars(name);
    let mut i: usize = 0;
    assert(env_view(env@).skip(0) =~= env_view(env@));
    while i < env.len()
        invariant
            i <= env.len(),
            want@ == ascii_lower_seq(name@),
            env_value(env_view(env@), name@) == env_value(env_view(env@).skip(i as int), name@),
        decreases env.len() - i,
    {
        let ghost rest = env_view(env@).skip(i as int);
        assert(rest[0] == (env@[i as int].0@, env@[i as int].1@));
        assert(rest.drop_first() =~= env_view(env@).skip(i + 1));
        let k = chars_of(env[i].0.as_str());
        let kl = to_ascii_lower_chars(k.as_slice());
        if chars_eq(kl.as_slice(), want.as_slice()) {
            return Some(owned(env[i].1.as_str()));
        }
        i = i + 1;
    }
    None
}

/// A text with its variable references expanded (see `expand_vars`).
pub fn expand_env(s: &str, env: &Vec<(String, String)>) -> (r: String)
    ensures
        r@ == expand_vars(s@, env_view(env@)),
{
    let c = chars_of(s);
    let ghost e = env_view(env@);
    let mut out: Vec<char> = Vec::new();
    let mut i: usize = 0;
    assert(c@.skip(0) =~= c@);
    while i < c.len()
        invariant
            i <= c.len(),
            c@ == s@,
            e == env_view(env@),
            out@ + expand_vars(c@.skip(i as int), e) == expand_vars(s@, e),
        decreases c.len() - i,
    {
        let ghost t = c@.skip(i as int);
        assert(t[0] == c@[i as int]);
        if c[i] != '%' {
            out.push(c[i]);
            assert(t.drop_first() =~= c@.skip(i + 1));
            assert(out@ + expand_vars(c@.skip(i + 1), e) =~= expand_vars(s@, e));
            i = i + 1;
        } else {
            let mut j: usize = i + 1;
            while j < c.len() && c[j] != '%'
                invariant
                    i + 1 <= j <= c.len(),
                    forall|k: int| i + 1 <= k < j ==> c@[k] != '%',
                decreases c.len() - j,
            {
                j = j + 1;
            }
            let ghost rest = t.drop_first();
            proof {
                lemma_percent_at(rest);
                assert(rest =~= c@.skip(i + 1));
                if percent_at(rest) < j - i - 1 {
                    assert(rest[percent_at(rest)] == c@[i + 1 + percent_at(rest)]);
                }
                if j < c.len() {
                    assert(rest[j - i - 1] == c@[j as int]);
                }
                assert(percent_at(rest) == j - i - 1);
            }
            if j == c.len() {
                let ghost before = out@;
                let mut k = i;
                while k < c.len()
                    invariant
                        i <= k <= c.len(),
                        out@ == before + c@.subrange(i as int, k as int),
                    decreases c.len() - k,
                {
                    out.push(c[k]);
                    assert(out@ =~= before + c@.subrange(i as int, k + 1));
                    k = k + 1;
                }
                assert(c@.subrange(i as int, c.len() as int) =~= t);
                assert(c@.skip(c.len() as int) =~= Seq::<char>::empty());
                assert(out@ + expand_vars(c@.skip(c.len() as int), e) =~= expand_vars(s@, e));
                i = c.len();
            } else {
                let name = crate::text::sub_chars(c.as_slice(), i + 1, j);
                assert(name@ =~= rest.take(j - i - 1));
                assert(rest.skip(j - i) =~= c@.skip(j + 1));
                let ghost before = out@;
                match lookup_env(env, name.as_slice()) {
                    Some(v) => {
                        let vc = chars_of(v.as_str());
                        crate::text::append_chars(&mut out, vc.as_slice());
                        assert(out@ + expand_vars(c@.skip(j + 1), e) =~= expand_vars(s@, e));
                    },
                    None => {
                        out.push('%');
                        crate::text::append_chars(&mut out, name.as_slice());
                        out.push('%');
                        assert(out@ =~= before + (seq!['%'] + name@ + seq!['%']));
                        assert(out@ + expand_vars(c@.skip(j + 1), e) =~= expand_vars(s@, e));
                    },
                }
                i = j + 1;
            }
        }
    }
    assert(c@.skip(c.len() as int) =~= Seq::<char>::empty());
    assert(out@ + expand_vars(Seq::<char>::empty(), e) =~= out@);
    string_of(out.as_slice())
}

/// Little-endian 16-bit units of raw bytes (see `le_units`).
pub fn units_of(raw: &[u8]) -> (r: Vec<u16>)
    ensures
        r@ == le_units(raw@),
{
    let mut r: Vec<u16> = Vec::new();
    let n = raw.len() / 2;
    let mut i: usize = 0;
    while i < n
        invariant
            i <= n,
            n == raw.len() / 2,
            r@ == le_units(raw@).take(i as int),
        decreases n - i,
    {
        let lo = raw[2 * i] as u16;
        let hi = raw[2 * i + 1] as u16;
        r.push(lo + 256 * hi);
        assert(r@ =~= le_units(raw@).take(i + 1));
        i = i + 1;
    }
    assert(le_units(raw@).take(n as int) =~= le_units(raw@));
    r
}

/// The view of registry values: name, type and raw bytes.
pub open spec fn values_view(v: Seq<(String, u32, Vec<u8>)>) -> Seq<(Seq<char>, u32, Seq<u8>)> {
    v.map_values(|x: (String, u32, Vec<u8>)| (x.0@, x.1, x.2@))
}

/// The first value of the given name.
pub open spec fn value_named(values: Seq<(Seq<char>, u32, Seq<u8>)>, name: Seq<char>) -> Option<
    (u32, Seq<u8>),
>
    decreases values.len(),
{
    if values.len() == 0 {
        None
    } else if values[0].0 == name {
        Some((values[0].1, values[0].2))
    } else {
        value_named(values.drop_first(), name)
    }
}

/// The text of a value: its UTF-16 text up to the first zero, with variable
/// references expanded for an expandable value.
pub open spec fn reg_text(ty: u32, raw: Seq<u8>, env: Seq<(Seq<char>, Seq<char>)>) -> Seq<char> {
    let s = utf16_text(before_nul(le_units(raw)));
    if ty == REG_EXPAND_SZ {
        expand_vars(s, env)
    } else {
        s
    }
}

/// The text of the value of the given name, if there is one.
pub open spec fn reg_value(
    values: Seq<(Seq<char>, u32, Seq<u8>)>,
    name: Seq<char>,
    env: Seq<(Seq<char>, Seq<char>)>,
) -> Option<Seq<char>> {
    match value_named(values, name) {
        Some(v) => Some(reg_text(v.0, v.1, env)),
        None => None,
    }
}

/// The text of a named value (see `reg_value`).
fn read_text(values: &Vec<(String, u32, Vec<u8>)>, name: &str, env: &Vec<(String, String)>) -> (r:
    Option<String>)
    ensures
        opt_seq(r) == reg_value(values_view(values@), name@, env_view(env@)),
{
    let want = chars_of(name);
    let mut i: usize = 0;
    assert(values_view(values@).skip(0) =~= values_view(values@));
    while i < values.len()
        invariant
            i <= values.len(),
            want@ == name@,
            value_named(values_view(values@), name@) == value_named(
                values_view(values@).skip(i as int),
                name@,
            ),
        decreases values.len() - i,
    {
        let ghost rest = values_view(values@).skip(i as int);
        assert(rest[0] == (values@[i as int].0@, values@[i as int].1, values@[i as int].2@));
        assert(rest.drop_first() =~= values_view(values@).skip(i + 1));
        let k = chars_of(values[i].0.as_str());
        if chars_eq(k.as_slice(), want.as_slice()) {
            let units = units_of(values[i].2.as_slice());
            let s = narrow(units.as_slice());
            if values[i].1 == REG_EXPAND_SZ {
                return Some(expand_env(s.as_str(), env));
            } else {
                return Some(s);
            }
        }
        i = i + 1;
    }
    None
}

/// The uninstall entry the values of a registry key make, with variable
/// references expanded from `env`: none without a display name or with an
/// empty one.
pub fn entry_from_values(values: &Vec<(String, u32, Vec<u8>)>, env: &Vec<(String, String)>) -> (r:
    Option<UninstallEntry>)
    ensures
        ({
            let v = values_view(values@);
            let e = env_view(env@);
            match r {
                Some(u) => reg_value(v, "DisplayName"@, e) == Some(u.display_name@) && u.display_name@.len()
                    > 0 && opt_seq(u.install_location) == reg_value(v, "InstallLocation"@, e) && opt_seq(
                    u.display_icon,
                ) == reg_value(v, "DisplayIcon"@, e) && opt_seq(u.publisher) == reg_value(
                    v,
                    "Publisher"@,
                    e,
                ) && opt_seq(u.uninstall_string) == reg_value(v, "UninstallString"@, e),
                None => match reg_value(v, "DisplayName"@, e) {
                    Some(n) => n.len() == 0,
                    None => true,
                },
            }
        }),
{
    let display_name = match read_text(values, "DisplayName", env) {
        Some(n) => n,
        None => return None,
    };
    let dn = chars_of(display_name.as_str());
    if dn.len() == 0 {
        return None;
    }
    Some(
        UninstallEntry {
            display_name,
            install_location: read_text(values, "InstallLocation", env),
            display_icon: read_text(values, "DisplayIcon", env),
            publisher: read_text(values, "Publisher", env),
            uninstall_string: read_text(values, "UninstallString", env),
        },
    )
}

// ---------------------------------------------------------------------------
// The recycle operation's file list
// ---------------------------------------------------------------------------

/// The file list of the shell's recycle operation: each path's UTF-16
/// units followed by a zero, then one more zero.
pub open spec fn from_list(paths: Seq<Seq<char>>) -> Seq<u16>
    decreases paths.len(),
{
    if paths.len() == 0 {
        seq![0u16]
    } else {
        from_list(paths.drop_last()).drop_last() + utf16_units(paths.last()).push(0).push(0)
    }
}

/// The file list of the shell's recycle operation (see `from_list`).
pub fn build_from_list(paths: &Vec<String>) -> (r: Vec<u16>)
    ensures
        r@ == from_list(sseqs(paths@)),
{
    let mut buf: Vec<u16> = Vec::new();
    let mut i: usize = 0;
    while i < paths.len()
        invariant
            i <= paths.len(),
            buf@.push(0) == from_list(sseqs(paths@).take(i as int)),
        decreases paths.len() - i,
    {
        assert(sseqs(paths@).take(i + 1).drop_last() =~= sseqs(paths@).take(i as int));
        assert(sseqs(paths@).take(i + 1).last() == paths@[i as int]@);
        let c = chars_of(paths[i].as_str());
        let u = encode_utf16(c.as_slice());
        let ghost before = buf@;
        let mut k: usize = 0;
        while k < u.len()
            invariant
                k <= u.len(),
                buf@ == before + u@.take(k as int),
            decreases u.len() - k,
        {
            buf.push(u[k]);
            assert(buf@ =~= before + u@.take(k + 1));
            k = k + 1;
        }
        buf.push(0);
        assert(u@.take(u.len() as int) =~= u@);
        assert(before.push(0).drop_last() =~= before);
        assert(buf@.push(0) =~= before.push(0).drop_last() + u@.push(0).push(0));
        i = i + 1;
    }
    assert(sseqs(paths@).take(paths.len() as int) =~= sseqs(paths@));
    buf.push(0);
    buf
}

/// The paths of `paths` whose flag, at the same place in `flags`, is
/// `want`, in order.
pub open spec fn flagged(paths: Seq<Seq<char>>, flags: Seq<bool>, want: bool) -> Seq<Seq<char>>
    decreases paths.len(),
{
    if paths.len() == 0 {
        Seq::empty()
    } else {
        let rest = flagged(paths.drop_last(), flags, want);
        if flags[paths.len() - 1] == want {
            rest.push(paths.last())
        } else {
            rest
        }
    }
}

/// The paths of `urls` that `moved` does not hold, in order.
pub open spec fn not_moved(urls: Seq<Seq<char>>, moved: Seq<Seq<char>>) -> Seq<Seq<char>>
    decreases urls.len(),
{
    if urls.len() == 0 {
        Seq::empty()
    } else {
        let rest = not_moved(urls.drop_last(), moved);
        if moved.contains(urls.last()) {
            rest
        } else {
            rest.push(urls.last())
        }
    }
}

/// The original paths of moved files.
pub open spec fn originals(pairs: Seq<FilePair>) -> Seq<Seq<char>> {
    pairs.map_values(|p: FilePair| p.original_path@)
}

/// The paths of `paths` whose flag is `want`.
fn keep_flagged(paths: &Vec<String>, flags: &Vec<bool>, want: bool) -> (r: Vec<String>)
    requires
        flags@.len() == paths@.len(),
    ensures
        sseqs(r@) == flagged(sseqs(paths@), flags@, want),
{
    let mut r: Vec<String> = Vec::new();
    let mut i: usize = 0;
    while i < paths.len()
        invariant
            i <= paths.len(),
            flags@.len() == paths@.len(),
            sseqs(r@) == flagged(sseqs(paths@).take(i as int), flags@, want),
        decreases paths.len() - i,
    {
        assert(sseqs(paths@).take(i + 1).drop_last() =~= sseqs(paths@).take(i as int));
        assert(sseqs(paths@).take(i + 1).last() == paths@[i as int]@);
        if flags[i] == want {
            let ghost prev = sseqs(r@);
            r.push(owned(paths[i].as_str()));
            assert(sseqs(r@) =~= prev.push(paths@[i as int]@));
        }
        i = i + 1;
    }
    assert(sseqs(paths@).take(paths.len() as int) =~= sseqs(paths@));
    r
}

/// What the batch call to the Recycle Bin left: the paths moved, and those
/// still to be sent one by one. When the call succeeded every path of
/// `existing` moved; when it failed, the paths no longer present
/// (`still_present`, looked at after the call) were moved by it, and the
/// others are tried again.
pub fn after_batch(existing: &Vec<String>, batch_ok: bool, still_present: &Vec<bool>) -> (r: (
    Vec<String>,
    Vec<String>,
))
    requires
        batch_ok || still_present@.len() == existing@.len(),
    ensures
        batch_ok ==> sseqs(r.0@) == sseqs(existing@) && r.1@.len() == 0,
        !batch_ok ==> sseqs(r.0@) == flagged(sseqs(existing@), still_present@, false) && sseqs(r.1@)
            == flagged(sseqs(existing@), still_present@, true),
{
    if batch_ok {
        let all = crate::dev_env::copy_strings(existing);
        (all, Vec::new())
    } else {
        (keep_flagged(existing, still_present, false), keep_flagged(existing, still_present, true))
    }
}

/// The removal report of a Recycle Bin run over `urls`: moved are the paths
/// of `moved` (by the batch call), then those of `retried` whose own call
/// succeeded (`retry_ok`), with no trash path; every path of `urls` not
/// moved failed; there is no archive folder and nothing is refused.
pub fn recycle_outcome(
    urls: &Vec<String>,
    moved: &Vec<String>,
    retried: &Vec<String>,
    retry_ok: &Vec<bool>,
) -> (r: DeleteResult)
    requires
        retry_ok@.len() == retried@.len(),
    ensures
        originals(r.moved@) == sseqs(moved@) + flagged(sseqs(retried@), retry_ok@, true),
        forall|i: int| 0 <= i < r.moved@.len() ==> (#[trigger] r.moved@[i]).trash_path@.len() == 0,
        sseqs(r.failed@) == not_moved(sseqs(urls@), originals(r.moved@)),
        r.blocked@.len() == 0,
        r.bundle_folder@.len() == 0,
        r.success == (r.failed@.len() == 0 && r.moved@.len() > 0),
{
    let again = keep_flagged(retried, retry_ok, true);
    let mut all: Vec<String> = crate::dev_env::copy_strings(moved);
    let ghost first = sseqs(all@);
    let mut j: usize = 0;
    while j < again.len()
        invariant
            j <= again.len(),
            sseqs(all@) == first + sseqs(again@).take(j as int),
        decreases again.len() - j,
    {
        let ghost prev = sseqs(all@);
        all.push(owned(again[j].as_str()));
        assert(sseqs(again@).take(j + 1) =~= sseqs(again@).take(j as int).push(again@[j as int]@));
        assert(sseqs(all@) =~= prev.push(again@[j as int]@));
        j = j + 1;
    }
    assert(sseqs(again@).take(again.len() as int) =~= sseqs(again@));
    let mut pairs: Vec<FilePair> = Vec::new();
    let mut k: usize = 0;
    while k < all.len()
        invariant
            k <= all.len(),
            originals(pairs@) == sseqs(all@).take(k as int),
            forall|i: int| 0 <= i < pairs@.len() ==> (#[trigger] pairs@[i]).trash_path@.len() == 0,
        decreases all.len() - k,
    {
        let ghost prev = pairs@;
        pairs.push(FilePair { trash_path: String::new(), original_path: owned(all[k].as_str()) });
        assert(originals(pairs@) =~= originals(prev).push(all@[k as int]@));
        assert(sseqs(all@).take(k + 1) =~= sseqs(all@).take(k as int).push(all@[k as int]@));
        k = k + 1;
    }
    assert(sseqs(all@).take(all.len() as int) =~= sseqs(all@));
    let mut failed: Vec<String> = Vec::new();
    let mut i: usize = 0;
    while i < urls.len()
        invariant
            i <= urls.len(),
            originals(pairs@) == sseqs(all@),
            sseqs(failed@) == not_moved(sseqs(urls@).take(i as int), sseqs(all@)),
        decreases urls.len() - i,
    {
        assert(sseqs(urls@).take(i + 1).drop_last() =~= sseqs(urls@).take(i as int));
        assert(sseqs(urls@).take(i + 1).last() == urls@[i as int]@);
        let c = chars_of(urls[i].as_str());
        if !crate::order::contains_string(&all, c.as_slice()) {
            let ghost prev = sseqs(failed@);
            failed.push(owned(urls[i].as_str()));
            assert(sseqs(failed@) =~= prev.push(urls@[i as int]@));
        }
        i = i + 1;
    }
    assert(sseqs(urls@).take(urls.len() as int) =~= sseqs(urls@));
    let success = crate::trash::removal_succeeded(pairs.len(), failed.len());
    DeleteResult { success, bundle_folder: String::new(), moved: pairs, blocked: Vec::new(), failed }
}

// ---------------------------------------------------------------------------
// The Windows adapter
// ---------------------------------------------------------------------------

/// The environment variables the Windows adapter reads, each if set.
pub struct WindowsVars {
    pub user_profile: Option<String>,
    pub home_drive: Option<String>,
    pub home_path: Option<String>,
    pub app_data: Option<String>,
    pub local_app_data: Option<String>,
    pub program_data: Option<String>,
    pub program_files: Option<String>,
    pub program_files_x86: Option<String>,
    pub temp: Option<String>,
}

/// A variable's value, or the fallback.
pub open spec fn or_else(v: Option<String>, fallback: Seq<char>) -> Seq<char> {
    match v {
        Some(s) => s@,
        None => fallback,
    }
}

/// The home folder: the user profile, else the home drive (`C:` by default)
/// followed by the home path (`\Users` by default).
pub open spec fn windows_home(vars: WindowsVars) -> Seq<char> {
    or_else(vars.user_profile, or_else(vars.home_drive, "C:"@) + or_else(vars.home_path, "\\Users"@))
}

/// The Windows folders of a user.
pub struct WindowsAdapter {
    pub home: String,
    pub appdata_roaming: String,
    pub appdata_local: String,
    pub programdata: String,
    pub program_files: String,
    pub program_files_x86: String,
    pub temp_dir: String,
    pub support_dirs: Vec<String>,
}

/// A variable's value, or the fallback.
fn value_or(v: Option<String>, fallback: &str) -> (r: String)
    ensures
        r@ == or_else(v, fallback@),
{
    match v {
        Some(s) => s,
        None => owned(fallback),
    }
}

/// The search folders of Windows before those that do not exist are left
/// out: the home folder, the desktop, both application data folders, both
/// Start Menus, per-user programs and both program folders.
pub open spec fn windows_apps_candidates(a: WindowsAdapter) -> Seq<Seq<char>> {
    seq![
        a.home@,
        a.home@ + "\\Desktop"@,
        a.appdata_roaming@,
        a.appdata_local@,
        a.appdata_roaming@ + "\\Microsoft\\Windows\\Start Menu\\Programs"@,
        a.programdata@ + "\\Microsoft\\Windows\\Start Menu\\Programs"@,
        a.appdata_local@ + "\\Programs"@,
        a.program_files@,
        a.program_files_x86@,
    ]
}

/// The orphan search folders of Windows.
pub open spec fn windows_reverse_paths(a: WindowsAdapter) -> Seq<Seq<char>> {
    seq![a.appdata_roaming@, a.appdata_local@, a.home@ + "\\Documents"@, a.programdata@]
}

/// A path joined with a name by the Windows separator.
pub open spec fn win_join(base: Seq<char>, name: Seq<char>) -> Seq<char> {
    if base.len() > 0 && (base.last() == '\\' || base.last() == '/') {
        base + name
    } else {
        base + "\\"@ + name
    }
}

impl WindowsAdapter {
    /// The adapter for the given variables (see `windows_home`); each
    /// folder falls back to its place in the home folder or on `C:`, and the
    /// vendor folders are those given.
    pub fn from_vars(vars: WindowsVars, support_dirs: Vec<String>) -> (r: WindowsAdapter)
        ensures
            r.home@ == windows_home(vars),
            r.appdata_roaming@ == or_else(vars.app_data, r.home@ + "\\AppData\\Roaming"@),
            r.appdata_local@ == or_else(vars.local_app_data, r.home@ + "\\AppData\\Local"@),
            r.programdata@ == or_else(vars.program_data, "C:\\ProgramData"@),
            r.program_files@ == or_else(vars.program_files, "C:\\Program Files"@),
            r.program_files_x86@ == or_else(vars.program_files_x86, "C:\\Program Files (x86)"@),
            r.temp_dir@ == or_else(vars.temp, r.home@ + "\\AppData\\Local\\Temp"@),
            r.support_dirs == support_dirs,
    {
        let ghost v = vars;
        let drive = value_or(vars.home_drive, "C:");
        let path = value_or(vars.home_path, "\\Users");
        let fallback = concat(drive.as_str(), path.as_str());
        let home = value_or(vars.user_profile, fallback.as_str());
        let roaming_fallback = concat(home.as_str(), "\\AppData\\Roaming");
        let local_fallback = concat(home.as_str(), "\\AppData\\Local");
        let temp_fallback = concat(home.as_str(), "\\AppData\\Local\\Temp");
        WindowsAdapter {
            appdata_roaming: value_or(vars.app_data, roaming_fallback.as_str()),
            appdata_local: value_or(vars.local_app_data, local_fallback.as_str()),
            programdata: value_or(vars.program_data, "C:\\ProgramData"),
            program_files: value_or(vars.program_files, "C:\\Program Files"),
            program_files_x86: value_or(vars.program_files_x86, "C:\\Program Files (x86)"),
            temp_dir: value_or(vars.temp, temp_fallback.as_str()),
            home,
            support_dirs,
        }
    }

    /// The search folders before those that do not exist are left out
    /// (see `windows_apps_candidates`).
    pub fn apps_path_candidates(&self) -> (r: Vec<String>)
        ensures
            sseqs(r@) == windows_apps_candidates(*self),
    {
        let r = vec![
            owned(self.home.as_str()),
            concat(self.home.as_str(), "\\Desktop"),
            owned(self.appdata_roaming.as_str()),
            owned(self.appdata_local.as_str()),
            concat(self.appdata_roaming.as_str(), "\\Microsoft\\Windows\\Start Menu\\Programs"),
            concat(self.programdata.as_str(), "\\Microsoft\\Windows\\Start Menu\\Programs"),
            concat(self.appdata_local.as_str(), "\\Programs"),
            owned(self.program_files.as_str()),
            owned(self.program_files_x86.as_str()),
        ];
        assert(sseqs(r@) =~= windows_apps_candidates(*self));
        r
    }

    /// The user's Start Menu programs folder.
    pub fn start_menu_user(&self) -> (r: String)
        ensures
            r@ == self.appdata_roaming@ + "\\Microsoft\\Windows\\Start Menu\\Programs"@,
    {
        concat(self.appdata_roaming.as_str(), "\\Microsoft\\Windows\\Start Menu\\Programs")
    }

    /// The common Start Menu programs folder.
    pub fn start_menu_common(&self) -> (r: String)
        ensures
            r@ == self.programdata@ + "\\Microsoft\\Windows\\Start Menu\\Programs"@,
    {
        concat(self.programdata.as_str(), "\\Microsoft\\Windows\\Start Menu\\Programs")
    }
}

impl SystemPaths for WindowsAdapter {
    fn home(&self) -> (r: String)
        ensures
            r@ == self.home@,
    {
        owned(self.home.as_str())
    }

    /// Caches live in the local application data folder.
    fn user_cache_dir(&self) -> (r: String)
        ensures
            r@ == self.appdata_local@,
    {
        owned(self.appdata_local.as_str())
    }

    fn user_temp_dir(&self) -> (r: String)
        ensures
            r@ == self.temp_dir@,
    {
        owned(self.temp_dir.as_str())
    }

    /// The search folders (see `windows_apps_candidates`); the caller keeps
    /// those that exist.
    fn apps_paths(&self) -> (r: Vec<String>)
        ensures
            sseqs(r@) == windows_apps_candidates(*self),
    {
        self.apps_path_candidates()
    }

    fn reverse_paths(&self) -> (r: Vec<String>)
        ensures
            sseqs(r@) == windows_reverse_paths(*self),
    {
        let r = vec![
            owned(self.appdata_roaming.as_str()),
            owned(self.appdata_local.as_str()),
            concat(self.home.as_str(), "\\Documents"),
            owned(self.programdata.as_str()),
        ];
        assert(sseqs(r@) =~= windows_reverse_paths(*self));
        r
    }

    /// The vendor folders of the roaming application data (see
    /// `vendor_dir_kept`).
    fn app_support_subdirs(&self) -> (r: Vec<String>)
        ensures
            sseqs(r@) == sseqs(self.support_dirs@),
    {
        crate::dev_env::copy_strings(&self.support_dirs)
    }
}

impl Trash for WindowsAdapter {
    /// A placeholder folder: the recycle bin has no folder of its own.
    fn trash_dir(&self) -> (r: String)
        ensures
            r@ == win_join(self.temp_dir@, "apios-trash"@),
    {
        let t = chars_of(self.temp_dir.as_str());
        if t.len() > 0 && (t[t.len() - 1] == '\\' || t[t.len() - 1] == '/') {
            concat(self.temp_dir.as_str(), "apios-trash")
        } else {
            let a = concat(self.temp_dir.as_str(), "\\");
            concat(a.as_str(), "apios-trash")
        }
    }
}

/// A folder of the roaming application data is a vendor folder unless its
/// name holds `microsoft` in any ASCII case.
pub fn vendor_dir_kept(name: &str) -> (r: bool)
    ensures
        r == !has_sub(ascii_lower_seq(name@), "microsoft"@),
{
    let n = chars_of(name);
    let l = to_ascii_lower_chars(n.as_slice());
    let m = chars_of("microsoft");
    !contains(l.as_slice(), m.as_slice())
}

// ---------------------------------------------------------------------------
// Discovered applications and processes
// ---------------------------------------------------------------------------

/// The file name of a Windows path (either separator).
pub open spec fn win_file_name(p: Seq<char>) -> Option<Seq<char>> {
    file_name(slashed(p))
}

/// The application of a path and name: nothing else is known of it.
pub fn minimal_app_info(path: String, app_name: String) -> (r: AppInfo)
    ensures
        r.path == path,
        r.app_name == app_name,
        r.bundle_identifier@.len() == 0,
        r.entitlements@.len() == 0,
        r.team_identifier is None,
        !r.web_app && !r.steam && !r.wrapped,
{
    AppInfo {
        path,
        bundle_identifier: String::new(),
        app_name,
        entitlements: Vec::new(),
        team_identifier: None,
        web_app: false,
        steam: false,
        wrapped: false,
    }
}

/// The file an uninstall entry's icon names: the text before the first
/// comma (`C:\app\foo.exe,0` names `C:\app\foo.exe`).
pub open spec fn icon_file(icon: Seq<char>) -> Seq<char> {
    crate::text::split(icon, ',')[0]
}

/// The file an uninstall entry's icon names (see `icon_file`).
pub fn display_icon_file(icon: &str) -> (r: String)
    ensures
        r@ == icon_file(icon@),
{
    let c = chars_of(icon);
    let parts = crate::text::split_char(c.as_slice(), ',');
    proof {
        crate::text::lemma_split_len(c@, ',');
    }
    assert(vseqs(parts@)[0] == parts@[0]@);
    string_of(parts[0].as_slice())
}

/// Adds an application found at `path` unless a path equal to it ignoring
/// case was found before; `seen` holds the lower-case paths found.
pub fn add_discovered(apps: &mut Vec<AppInfo>, seen: &mut Vec<String>, path: &str, name: String)
    ensures
        sseqs(old(seen)@).contains(unicode_str_lower(path@)) ==> final(apps)@ == old(apps)@
            && final(seen)@ == old(seen)@,
        !sseqs(old(seen)@).contains(unicode_str_lower(path@)) ==> final(apps)@.len() == old(apps)@.len()
            + 1 && final(apps)@.take(old(apps)@.len() as int) == old(apps)@
            && final(apps)@.last().path@ == path@ && final(apps)@.last().app_name == name
            && final(apps)@.last().bundle_identifier@.len() == 0 && sseqs(final(seen)@) == sseqs(
            old(seen)@,
        ).push(unicode_str_lower(path@)),
{
    let key = str_to_lower(path);
    let k = chars_of(key.as_str());
    if crate::order::contains_string(seen, k.as_slice()) {
        return;
    }
    let ghost before_seen = seen@;
    let ghost before_apps = apps@;
    seen.push(key);
    apps.push(minimal_app_info(owned(path), name));
    assert(sseqs(seen@) =~= sseqs(before_seen).push(unicode_str_lower(path@)));
    assert(apps@.take(before_apps.len() as int) =~= before_apps);
}

/// The image name of an application's executable: its file name, when
/// that ends with `.exe` in any ASCII case.
pub open spec fn exe_image(path: Seq<char>) -> Option<Seq<char>> {
    match win_file_name(path) {
        Some(n) => if ends(ascii_lower_seq(n), ".exe"@) {
            Some(n)
        } else {
            None
        },
        None => None,
    }
}

/// The image name of an application's executable (see `exe_image`).
pub fn exe_image_name(path: &str) -> (r: Option<String>)
    ensures
        opt_seq(r) == exe_image(path@),
{
    let p = chars_of(path);
    let s = slashed_chars(p.as_slice());
    match file_name_of(s.as_slice()) {
        Some(n) => {
            let l = to_ascii_lower_chars(n.as_slice());
            if ends_with_str(l.as_slice(), ".exe") {
                Some(string_of(n.as_slice()))
            } else {
                None
            }
        },
        None => None,
    }
}

/// The number of lines of a process listing that name an image, ignoring
/// ASCII case.
pub open spec fn image_lines(output: Seq<char>, image: Seq<char>) -> nat {
    lines(output).filter(|l: Seq<char>| has_sub(ascii_lower_seq(l), ascii_lower_seq(image))).len()
}

/// The number of processes of an image in `tasklist` output (see
/// `image_lines`), as far as it fits in a `u32`.
pub fn tasklist_count_from(output: &str, image: &str) -> (r: u32)
    ensures
        r == (if image_lines(output@, image@) <= u32::MAX {
            image_lines(output@, image@) as u32
        } else {
            u32::MAX
        }),
{
    let text = chars_of(output);
    let ls = lines_of(text.as_slice());
    let im = chars_of(image);
    let want = to_ascii_lower_chars(im.as_slice());
    let ghost f = |l: Seq<char>| has_sub(ascii_lower_seq(l), ascii_lower_seq(image@));
    let mut n: u64 = 0;
    let mut k: usize = 0;
    while k < ls.len()
        invariant
            k <= ls.len(),
            vseqs(ls@) == lines(output@),
            want@ == ascii_lower_seq(image@),
            f == (|l: Seq<char>| has_sub(ascii_lower_seq(l), ascii_lower_seq(image@))),
            n == vseqs(ls@).take(k as int).filter(f).len(),
            n <= k,
        decreases ls.len() - k,
    {
        let ghost t = vseqs(ls@).take(k + 1);
        assert(t.drop_last() =~= vseqs(ls@).take(k as int));
        assert(t.last() == ls@[k as int]@);
        proof {
            t.drop_last().lemma_filter_push(t.last(), f);
            assert(t =~= t.drop_last().push(t.last()));
        }
        let l = to_ascii_lower_chars(ls[k].as_slice());
        if contains(l.as_slice(), want.as_slice()) {
            n = n + 1;
        }
        k = k + 1;
    }
    assert(vseqs(ls@).take(ls@.len() as int) =~= vseqs(ls@));
    if n <= 4294967295 {
        n as u32
    } else {
        4294967295
    }
}

} // verus!
