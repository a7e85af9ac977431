//! Where the entries of an extracted archive go: entry names are split into path
//! components, and each component is sanitized so that it names a single file or
//! directory below the extraction root.

use vstd::prelude::*;

use crate::text::{component_bounds, spec_components};

verus! {

/// Whether `c` is refused in a sanitized file name: a path separator or one of
/// `? < > : * | "`.
pub open spec fn is_illegal_char(c: char) -> bool {
    c == '/' || c == '\\' || c == '?' || c == '<' || c == '>' || c == ':' || c == '*' || c == '|'
        || c == '"'
}

/// Whether `c` is a control character: `U+0000` to `U+001F` or `U+0080` to `U+009F`.
pub open spec fn is_control_char(c: char) -> bool {
    (c as u32) <= 0x1f || (0x80 <= (c as u32) && (c as u32) <= 0x9f)
}

/// Whether `name` is safe as one path component: at most 255 characters, no path
/// separator, illegal or control character, and neither `.` nor `..`.
pub open spec fn is_safe_component(name: Seq<char>) -> bool {
    &&& name.len() <= 255
    &&& forall|i: int| 0 <= i < name.len() ==> !is_illegal_char(#[trigger] name[i]) && !is_control_char(name[i])
    &&& name != seq!['.']
    &&& name != seq!['.', '.']
}

/// The number of bytes that `c` takes in UTF-8.
pub open spec fn utf8_width(c: char) -> nat {
    if (c as u32) < 0x80 {
        1
    } else if (c as u32) < 0x800 {
        2
    } else if (c as u32) < 0x10000 {
        3
    } else {
        4
    }
}

/// The number of bytes that `s` takes in UTF-8.
pub open spec fn utf8_len(s: Seq<char>) -> nat
    decreases s.len(),
{
    if s.len() == 0 {
        0
    } else {
        utf8_len(s.drop_last()) + utf8_width(s.last())
    }
}

/// `s` without its illegal and control characters.
pub open spec fn strip_unsafe(s: Seq<char>) -> Seq<char>
    decreases s.len(),
{
    if s.len() == 0 {
        s
    } else {
        let kept = strip_unsafe(s.drop_last());
        if is_illegal_char(s.last()) || is_control_char(s.last()) {
            kept
        } else {
            kept.push(s.last())
        }
    }
}

/// Whether `s` is made only of dots, and of at least one.
pub open spec fn all_dots(s: Seq<char>) -> bool {
    s.len() > 0 && forall|i: int| 0 <= i < s.len() ==> #[trigger] s[i] == '.'
}

/// What every platform makes of `name` before its own steps: the illegal and control
/// characters are removed, and a name that is then made only of dots becomes empty.
pub open spec fn sanitized_base(name: Seq<char>) -> Seq<char> {
    let kept = strip_unsafe(name);
    if all_dots(kept) {
        Seq::<char>::empty()
    } else {
        kept
    }
}

/// Whether `c` is the ASCII letter `lower` in either case.
pub open spec fn ascii_ci_eq(c: char, lower: char) -> bool {
    c == lower || (c as int) == (lower as int) - 32
}

/// Whether `name` starts with `word`, ASCII letters compared without case.
pub open spec fn starts_ci(name: Seq<char>, word: Seq<char>) -> bool {
    &&& name.len() >= word.len()
    &&& forall|i: int| 0 <= i < word.len() ==> ascii_ci_eq(#[trigger] name[i], word[i])
}

/// Whether `name` is a reserved device name of Windows, in any case, alone or before a
/// dot: `CON`, `PRN`, `AUX`, `NUL`, or `COM` or `LPT` followed by one digit.
pub open spec fn is_device_name(name: Seq<char>) -> bool {
    let three = starts_ci(name, seq!['c', 'o', 'n']) || starts_ci(name, seq!['p', 'r', 'n'])
        || starts_ci(name, seq!['a', 'u', 'x']) || starts_ci(name, seq!['n', 'u', 'l']);
    let four = (starts_ci(name, seq!['c', 'o', 'm']) || starts_ci(name, seq!['l', 'p', 't']))
        && name.len() >= 4 && '0' <= name[3] && name[3] <= '9';
    ||| three && (name.len() == 3 || name[3] == '.')
    ||| four && (name.len() == 4 || name[4] == '.')
}

/// Whether sanitizing leaves `name` as it is, on every platform: it holds no illegal or
/// control character, takes at most 255 bytes, does not end with a dot or a space, and
/// is not a reserved device name.
pub open spec fn kept_whole(name: Seq<char>) -> bool {
    &&& forall|i: int| 0 <= i < name.len() ==> !is_illegal_char(#[trigger] name[i]) && !is_control_char(name[i])
    &&& utf8_len(name) <= 255
    &&& name.len() > 0 ==> name.last() != '.' && name.last() != ' '
    &&& !is_device_name(name)
}

/// What sanitizing `name` gives: a safe component that is a prefix of
/// `sanitized_base(name)`, and all of it when no further step applies to it (it takes
/// at most 255 bytes, does not end with a dot or a space, and is not a device name).
/// The further steps (cutting to 255 bytes, and on Windows removing a device name and
/// trailing dots and spaces) each keep a prefix.
pub open spec fn is_sanitized_from(out: Seq<char>, name: Seq<char>) -> bool {
    let base = sanitized_base(name);
    &&& is_safe_component(out)
    &&& out.len() <= base.len()
    &&& out == base.subrange(0, out.len() as int)
    &&& kept_whole(base) ==> out == base
}

/// Removing the illegal and control characters leaves a name without them as it is.
proof fn lemma_strip_unsafe_keeps(s: Seq<char>)
    requires
        forall|i: int| 0 <= i < s.len() ==> !is_illegal_char(#[trigger] s[i]) && !is_control_char(s[i]),
    ensures
        strip_unsafe(s) == s,
    decreases s.len(),
{
    if s.len() > 0 {
        let d = s.drop_last();
        assert forall|i: int| 0 <= i < d.len() implies !is_illegal_char(#[trigger] d[i]) && !is_control_char(d[i]) by {
            assert(d[i] == s[i]);
        }
        lemma_strip_unsafe_keeps(d);
        assert(d.push(s.last()) =~= s);
    }
}

/// A name that sanitizing leaves whole on every platform is its own base, so the
/// sanitized name is the name itself.
pub proof fn lemma_kept_whole_unchanged(name: Seq<char>)
    requires
        kept_whole(name),
    ensures
        sanitized_base(name) == name,
        forall|out: Seq<char>| #[trigger] is_sanitized_from(out, name) ==> out == name,
{
    lemma_strip_unsafe_keeps(name);
    if all_dots(name) {
        assert(name[name.len() - 1] == '.');
    }
}

/// Calls `sanitize_filename::sanitize`. Its source removes the characters
/// `/ ? < > \ : * | "` and the control characters, replaces a name made only of dots
/// by the empty name (`sanitized_base`), on Windows then removes a reserved device
/// name and trailing dots and spaces, and cuts the result to at most 255 bytes at a
/// character boundary. So the result is safe and a prefix of the base, and is all of
/// the base when none of the later steps applies. How long the prefix is otherwise is
/// not stated, since the Windows steps run only where the crate is built for Windows.
#[verifier::external_body]
fn sanitize_component(name: &str) -> (r: String)
    ensures
        is_sanitized_from(r@, name@),
{
    sanitize_filename::sanitize(name)
}

/// Splits an entry name into its path components at `/` and `\`, and sanitizes each
/// component: the i-th result is the i-th component, sanitized.
pub fn sanitize_file_path(path: &str) -> (r: Vec<String>)
    ensures
        r@.len() == spec_components(path@).len(),
        forall|i: int| 0 <= i < r@.len() ==> is_sanitized_from(#[trigger] r@[i]@, spec_components(path@)[i]),
{
    let bounds = component_bounds(path);
    let mut components: Vec<String> = Vec::new();
    let mut k: usize = 0;
    while k < bounds.len()
        invariant
            k <= bounds@.len(),
            bounds@.len() == spec_components(path@).len(),
            forall|j: int| 0 <= j < bounds@.len() ==> {
                &&& #[trigger] bounds@[j].0 <= bounds@[j].1 <= path@.len()
                &&& path@.subrange(bounds@[j].0 as int, bounds@[j].1 as int) == spec_components(path@)[j]
            },
            components@.len() == k,
            forall|i: int| 0 <= i < components@.len()
                ==> is_sanitized_from(#[trigger] components@[i]@, spec_components(path@)[i]),
        decreases bounds@.len() - k,
    {
        let (from, to) = bounds[k];
        let part = path.substring_char(from, to);
        components.push(sanitize_component(part));
        k = k + 1;
    }
    components
}

/// Whether an archive entry with this name is a directory: its name ends with `/`.
pub fn entry_is_dir(name: &str) -> (r: bool)
    ensures
        r == (name@.len() > 0 && name@.last() == '/'),
{
    let n = name.unicode_len();
    n > 0 && name.get_char(n - 1) == '/'
}

/// What happens to one archive entry.
pub enum EntryPlan {
    /// The entry's name is not valid text: the entry is skipped.
    Skip,
    /// The entry is a directory at these sanitized components below the root.
    Directory(Vec<String>),
    /// The entry is a file at these sanitized components below the root.
    File(Vec<String>),
}

/// Plans one archive entry from its name (`None` when the name is not valid text): a
/// name ending with `/` is a directory, any other name a file, both at the sanitized
/// components of the name; an entry without a text name is skipped.
pub fn plan_entry(name: Option<&str>) -> (p: EntryPlan)
    ensures
        match name {
            None => p is Skip,
            Some(n) => match p {
                EntryPlan::Skip => false,
                EntryPlan::Directory(c) => n@.len() > 0 && n@.last() == '/'
                    && c@.len() == spec_components(n@).len()
                    && forall|i: int| 0 <= i < c@.len()
                        ==> is_sanitized_from(#[trigger] c@[i]@, spec_components(n@)[i]),
                EntryPlan::File(c) => !(n@.len() > 0 && n@.last() == '/')
                    && c@.len() == spec_components(n@).len()
                    && forall|i: int| 0 <= i < c@.len()
                        ==> is_sanitized_from(#[trigger] c@[i]@, spec_components(n@)[i]),
            },
        },
{
    match name {
        None => EntryPlan::Skip,
        Some(n) => {
            let components = sanitize_file_path(n);
            if entry_is_dir(n) {
                EntryPlan::Directory(components)
            } else {
                EntryPlan::File(components)
            }
        },
    }
}

} // verus!
