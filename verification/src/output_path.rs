//! Output file names: from the name that a user asked for and the target
//! format to a safe file name with the right extension, and the numbered
//! names that are tried when that one is taken.

use crate::text::{
    decimal, find_last, from_chars, is_whitespace, last_index_of, lemma_decimal_digits,
    lemma_last_index_of, lemma_last_index_of_is, lemma_trim, push_decimal, push_range, same_text,
    to_chars, trim, trim_chars,
};
use vstd::prelude::*;
use vstd::string::*;

verus! {

/// Whether `c` is unwelcome in a file name.
pub open spec fn is_hostile(c: char) -> bool {
    c == '/' || c == '\\' || c == ':' || c == '*' || c == '?' || c == '"' || c == '<' || c == '>'
        || c == ' ' || c == '|'
}

/// `c`, or an underscore in its place where `c` is unwelcome in a file name.
pub open spec fn tamed(c: char) -> char {
    if is_hostile(c) {
        '_'
    } else {
        c
    }
}

/// `name` without the white space at either end, and with an underscore in
/// place of every unwelcome character.
pub open spec fn sanitized(name: Seq<char>) -> Seq<char> {
    trim(name).map_values(|c: char| tamed(c))
}

/// The extension, without its dot, of files in the given format.
pub open spec fn extension_of(format: Seq<char>) -> Seq<char> {
    if format == "mp4"@ || format == "mpeg4"@ {
        "mp4"@
    } else if format == "mov"@ || format == "quicktime"@ {
        "mov"@
    } else if format == "webm"@ {
        "webm"@
    } else if format == "gif"@ {
        "gif"@
    } else if format == "mp3"@ {
        "mp3"@
    } else {
        "mp4"@
    }
}

/// `name` up to its last dot; all of it where it has none.
pub open spec fn stem(name: Seq<char>) -> Seq<char> {
    let dot = last_index_of(name, '.');
    if dot < 0 {
        name
    } else {
        name.subrange(0, dot)
    }
}

/// `name` from its last dot on; nothing where it has none.
pub open spec fn suffix(name: Seq<char>) -> Seq<char> {
    let dot = last_index_of(name, '.');
    if dot < 0 {
        Seq::empty()
    } else {
        name.subrange(dot, name.len() as int)
    }
}

/// `name` with `extension` in place of whatever extension it had.
pub open spec fn with_extension(name: Seq<char>, extension: Seq<char>) -> Seq<char> {
    stem(name).push('.') + extension
}

/// The name under which the output is saved when nothing usable was asked for.
pub open spec fn fallback_name() -> Seq<char> {
    "clipforge-export.mp4"@
}

/// The file name for an output that was asked for as `name`, in `format`.
pub open spec fn file_name_for(name: Seq<char>, format: Seq<char>) -> Seq<char> {
    let clean = sanitized(name);
    with_extension(
        if clean.len() == 0 {
            fallback_name()
        } else {
            clean
        },
        extension_of(format),
    )
}

/// The `n`-th name to try: `name` itself first, then `name` with `_(n)`
/// before its extension.
pub open spec fn candidate(name: Seq<char>, n: nat) -> Seq<char> {
    if n == 0 {
        name
    } else {
        stem(name) + seq!['_', '('] + decimal(n) + seq![')'] + suffix(name)
    }
}

/// The path of `name` inside `directory`.
pub open spec fn joined(directory: Seq<char>, name: Seq<char>) -> Seq<char> {
    if directory.len() == 0 || directory.last() == '/' {
        directory + name
    } else {
        directory.push('/') + name
    }
}

/// Whether a requested output names a place by itself, from the root.
pub open spec fn is_absolute(requested: Seq<char>) -> bool {
    requested.len() > 0 && requested[0] == '/'
}

/// The directory of an absolute path: what stands before its last slash,
/// the root where that is nothing.
pub open spec fn parent_of(path: Seq<char>) -> Seq<char> {
    let slash = last_index_of(path, '/');
    if slash <= 0 {
        seq!['/']
    } else {
        path.subrange(0, slash)
    }
}

/// The last component of a path: what stands after its last slash.
pub open spec fn leaf_of(path: Seq<char>) -> Seq<char> {
    path.subrange(last_index_of(path, '/') + 1, path.len() as int)
}

/// Tells whether `c` is unwelcome in a file name.
pub fn char_is_hostile(c: char) -> (b: bool)
    ensures
        b == is_hostile(c),
{
    c == '/' || c == '\\' || c == ':' || c == '*' || c == '?' || c == '"' || c == '<' || c == '>'
        || c == ' ' || c == '|'
}

/// Makes a file name safe: white space at either end is dropped, and every
/// unwelcome character becomes an underscore.
pub fn sanitize_filename(filename: &str) -> (r: String)
    ensures
        r@ == sanitized(filename@),
{
    let v = trim_chars(&to_chars(filename));
    let mut w: Vec<char> = Vec::new();
    let mut i: usize = 0;
    while i < v.len()
        invariant
            i <= v.len(),
            w@ == v@.subrange(0, i as int).map_values(|c: char| tamed(c)),
        decreases v.len() - i,
    {
        let c: char = v[i];
        w.push(if char_is_hostile(c) {
            '_'
        } else {
            c
        });
        i += 1;
        assert(w@ =~= v@.subrange(0, i as int).map_values(|c: char| tamed(c)));
    }
    assert(v@.subrange(0, v.len() as int) == v@);
    from_chars(&w)
}

/// The extension, without its dot, of files in the given format. A format
/// that is not known is written as mp4.
pub fn extension_for_format(format: &str) -> (r: &'static str)
    ensures
        r@ == extension_of(format@),
{
    if same_text(format, "mp4") || same_text(format, "mpeg4") {
        "mp4"
    } else if same_text(format, "mov") || same_text(format, "quicktime") {
        "mov"
    } else if same_text(format, "webm") {
        "webm"
    } else if same_text(format, "gif") {
        "gif"
    } else if same_text(format, "mp3") {
        "mp3"
    } else {
        "mp4"
    }
}

/// Gives `name` the extension `extension`, in place of the one it had.
pub fn normalize_extension(name: &str, extension: &str) -> (r: String)
    ensures
        r@ == with_extension(name@, extension@),
{
    let v = to_chars(name);
    let e = to_chars(extension);
    let cut: usize = match find_last(&v, '.') {
        Some(dot) => dot,
        None => v.len(),
    };
    let mut out: Vec<char> = Vec::new();
    push_range(&mut out, &v, 0, cut);
    assert(v@.subrange(0, v.len() as int) == v@);
    out.push('.');
    push_range(&mut out, &e, 0, e.len());
    assert(e@.subrange(0, e.len() as int) == e@);
    from_chars(&out)
}

/// The format that a name asks for by itself: what stands behind its last
/// dot, nothing where it has none.
pub open spec fn format_in(name: Seq<char>) -> Seq<char> {
    let dot = last_index_of(name, '.');
    if dot < 0 {
        Seq::empty()
    } else {
        name.subrange(dot + 1, name.len() as int)
    }
}

/// The format that `name` asks for by itself.
pub fn format_of_name(name: &str) -> (r: String)
    ensures
        r@ == format_in(name@),
{
    let v = to_chars(name);
    proof {
        lemma_last_index_of(v@, '.');
    }
    let mut out: Vec<char> = Vec::new();
    match find_last(&v, '.') {
        Some(dot) => {
            push_range(&mut out, &v, dot + 1, v.len());
        },
        None => {},
    }
    from_chars(&out)
}

/// The file name under which to save an output that was asked for as `name`,
/// in `format`.
pub fn output_file_name(name: &str, format: &str) -> (r: String)
    ensures
        r@ == file_name_for(name@, format@),
{
    let clean = sanitize_filename(name);
    let extension = extension_for_format(format);
    if clean.as_str().unicode_len() == 0 {
        normalize_extension("clipforge-export.mp4", extension)
    } else {
        normalize_extension(clean.as_str(), extension)
    }
}

/// The `n`-th name to try in the search for an unused one.
pub fn candidate_name(name: &str, n: u32) -> (r: String)
    ensures
        r@ == candidate(name@, n as nat),
{
    if n == 0 {
        return String::from_str(name);
    }
    let v = to_chars(name);
    let cut: usize = match find_last(&v, '.') {
        Some(dot) => dot,
        None => v.len(),
    };
    proof {
        lemma_last_index_of(v@, '.');
    }
    let mut out: Vec<char> = Vec::new();
    push_range(&mut out, &v, 0, cut);
    assert(v@.subrange(0, v.len() as int) == v@);
    out.push('_');
    out.push('(');
    push_decimal(n as u64, &mut out);
    out.push(')');
    push_range(&mut out, &v, cut, v.len());
    assert(out@ =~= candidate(name@, n as nat));
    from_chars(&out)
}

/// The path of `name` inside `directory`.
pub fn join_path(directory: &str, name: &str) -> (r: String)
    ensures
        r@ == joined(directory@, name@),
{
    let d = to_chars(directory);
    let mut out: Vec<char> = Vec::new();
    push_range(&mut out, &d, 0, d.len());
    assert(d@.subrange(0, d.len() as int) == d@);
    if d.len() > 0 && d[d.len() - 1] != '/' {
        out.push('/');
    }
    let mut s = from_chars(&out);
    s.append(name);
    s
}

/// Tells whether a requested output names a place by itself, from the root.
pub fn path_is_absolute(requested: &str) -> (b: bool)
    ensures
        b == is_absolute(requested@),
{
    let v = to_chars(requested);
    v.len() > 0 && v[0] == '/'
}

/// Splits an absolute path into its directory and its last component.
pub fn split_path(path: &str) -> (r: (String, String))
    ensures
        r.0@ == parent_of(path@),
        r.1@ == leaf_of(path@),
{
    let v = to_chars(path);
    proof {
        lemma_last_index_of(v@, '/');
    }
    let mut dir: Vec<char> = Vec::new();
    let mut leaf: Vec<char> = Vec::new();
    match find_last(&v, '/') {
        Some(slash) => {
            if slash == 0 {
                dir.push('/');
            } else {
                push_range(&mut dir, &v, 0, slash);
            }
            push_range(&mut leaf, &v, slash + 1, v.len());
        },
        None => {
            dir.push('/');
            push_range(&mut leaf, &v, 0, v.len());
        },
    }
    assert(dir@ =~= parent_of(path@));
    assert(leaf@ =~= leaf_of(path@));
    (from_chars(&dir), from_chars(&leaf))
}

/// The names that are tried for one output differ from each other.
pub proof fn lemma_candidates_differ(name: Seq<char>, n: nat, m: nat)
    requires
        n != m,
    ensures
        candidate(name, n) != candidate(name, m),
{
    lemma_last_index_of(name, '.');
    lemma_decimal_digits(n);
    lemma_decimal_digits(m);
    let head = stem(name) + seq!['_', '('];
    let tail = seq![')'] + suffix(name);
    assert(stem(name) + suffix(name) == name);
    if n == 0 {
        assert(candidate(name, m).len() == name.len() + 3 + decimal(m).len());
    } else if m == 0 {
        assert(candidate(name, n).len() == name.len() + 3 + decimal(n).len());
    } else {
        let a = candidate(name, n);
        let b = candidate(name, m);
        assert(a == head + decimal(n) + tail);
        assert(b == head + decimal(m) + tail);
        if a == b {
            assert(decimal(n).len() == decimal(m).len()) by {
                assert(a.len() == head.len() + decimal(n).len() + tail.len());
                assert(b.len() == head.len() + decimal(m).len() + tail.len());
            }
            assert(decimal(n) =~= decimal(m)) by {
                assert forall|i: int| 0 <= i < decimal(n).len() implies decimal(n)[i] == decimal(
                    m,
                )[i] by {
                    assert(a[head.len() + i] == decimal(n)[i]);
                    assert(b[head.len() + i] == decimal(m)[i]);
                }
            }
        }
    }
}

/// A sanitized name holds no unwelcome character, and no white space at
/// either end.
pub proof fn lemma_sanitized_is_clean(name: Seq<char>)
    ensures
        forall|i: int| 0 <= i < sanitized(name).len() ==> !is_hostile(#[trigger] sanitized(name)[i]),
        sanitized(name).len() > 0 ==> !is_whitespace(sanitized(name)[0]) && !is_whitespace(
            sanitized(name).last(),
        ),
        sanitized(name).len() <= name.len(),
{
    lemma_trim(name);
}

/// Sanitizing what is already sanitized changes nothing.
pub proof fn lemma_sanitize_idempotent(name: Seq<char>)
    ensures
        sanitized(sanitized(name)) == sanitized(name),
{
    lemma_sanitized_is_clean(name);
    let clean = sanitized(name);
    assert(trim(clean) == clean);
    assert(clean.map_values(|c: char| tamed(c)) =~= clean);
}

/// A name without unwelcome characters and without white space at its ends
/// is kept as it is.
pub proof fn lemma_clean_name_is_kept(name: Seq<char>)
    requires
        forall|i: int| 0 <= i < name.len() ==> !is_hostile(#[trigger] name[i]),
        name.len() > 0 ==> !is_whitespace(name[0]) && !is_whitespace(name.last()),
    ensures
        sanitized(name) == name,
{
    assert(trim(name) == name);
    assert(name.map_values(|c: char| tamed(c)) =~= name);
}

/// The extension of every format is a short word without a dot.
pub proof fn lemma_extension_is_plain(format: Seq<char>)
    ensures
        3 <= extension_of(format).len() <= 4,
        !extension_of(format).contains('.'),
{
    reveal_strlit("mp4");
    reveal_strlit("mov");
    reveal_strlit("webm");
    reveal_strlit("gif");
    reveal_strlit("mp3");
}

/// A name with a new extension ends in a dot and that extension, and what
/// stands before them is what stood before the last dot of the old name.
pub proof fn lemma_with_extension_parts(name: Seq<char>, extension: Seq<char>)
    requires
        !extension.contains('.'),
    ensures
        stem(with_extension(name, extension)) == stem(name),
        suffix(with_extension(name, extension)) == seq!['.'] + extension,
{
    let r = with_extension(name, extension);
    let at = stem(name).len() as int;
    assert forall|k: int| at < k < r.len() implies #[trigger] r[k] != '.' by {
        assert(r[k] == extension[k - at - 1]);
        assert(extension.contains(r[k]));
    }
    lemma_last_index_of_is(r, '.', at);
    assert(r.subrange(0, at) =~= stem(name));
    assert(r.subrange(at, r.len() as int) =~= seq!['.'] + extension);
}

/// A name that already ends in a dot and the extension is kept as it is.
pub proof fn lemma_right_extension_is_kept(base: Seq<char>, extension: Seq<char>)
    requires
        !extension.contains('.'),
    ensures
        with_extension(base.push('.') + extension, extension) == base.push('.') + extension,
{
    let name = base.push('.') + extension;
    let at = base.len() as int;
    assert forall|k: int| at < k < name.len() implies #[trigger] name[k] != '.' by {
        assert(name[k] == extension[k - at - 1]);
        assert(extension.contains(name[k]));
    }
    lemma_last_index_of_is(name, '.', at);
    assert(name.subrange(0, at) =~= base);
}

/// Giving a name the same extension twice is the same as giving it once.
pub proof fn lemma_with_extension_idempotent(name: Seq<char>, extension: Seq<char>)
    requires
        !extension.contains('.'),
    ensures
        with_extension(with_extension(name, extension), extension) == with_extension(
            name,
            extension,
        ),
{
    lemma_right_extension_is_kept(stem(name), extension);
}

/// The file name made for an output ends in the extension of its format,
/// and every name that is tried for it does so too.
pub proof fn lemma_file_name_has_extension(name: Seq<char>, format: Seq<char>, n: nat)
    ensures
        suffix(file_name_for(name, format)) == seq!['.'] + extension_of(format),
        suffix(candidate(file_name_for(name, format), n)) == seq!['.'] + extension_of(format),
{
    lemma_extension_is_plain(format);
    let extension = extension_of(format);
    let clean = sanitized(name);
    let base = if clean.len() == 0 {
        fallback_name()
    } else {
        clean
    };
    lemma_with_extension_parts(base, extension);
    let file = file_name_for(name, format);
    if n > 0 {
        let c = candidate(file, n);
        let tail = seq!['.'] + extension;
        let front = stem(file) + seq!['_', '('] + decimal(n) + seq![')'];
        let at = front.len() as int;
        assert(c == front + tail);
        assert forall|k: int| at < k < c.len() implies #[trigger] c[k] != '.' by {
            assert(c[k] == extension[k - at - 1]);
            assert(extension.contains(c[k]));
        }
        lemma_last_index_of_is(c, '.', at);
        assert(c.subrange(at, c.len() as int) =~= tail);
    }
}

} // verus!
