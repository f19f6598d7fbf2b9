use vstd::prelude::*;

use humansize::FileSize;

use crate::text::push_char;

verus! {

/// The text that humansize gives for a size in bytes with its conventional options.
pub uninterp spec fn human_size(bytes: u64) -> Seq<char>;

/// Relies on humansize's `FileSize::file_size` for `u64` with `CONVENTIONAL` options
/// (multiples of 1024, units KB, MB, ..., two decimals): it never fails for an unsigned
/// size, and its text depends on the size alone.
#[verifier::external_body]
fn format_size(bytes: u64) -> (r: String)
    ensures
        r@ == human_size(bytes),
{
    match bytes.file_size(humansize::file_size_opts::CONVENTIONAL) {
        Ok(s) => s,
        Err(e) => e,
    }
}

/// One line of the package listing.
#[derive(Clone, Debug, PartialEq)]
pub struct InfoRow {
    pub name: String,
    pub version: String,
    /// The installed size, or `-` when the package is not installed.
    pub size: String,
    /// Installed, but no longer defined in the database.
    pub obsolete: bool,
}

/// The index of the first `@` of `s` at or after `i` (`s.len()` if none).
pub open spec fn at_sign(s: Seq<char>, i: int) -> int
    decreases s.len() - i,
{
    if 0 <= i < s.len() && s[i] != '@' {
        at_sign(s, i + 1)
    } else {
        i
    }
}

/// The name part of a package id: what stands before its first `@`.
pub open spec fn id_name(id: Seq<char>) -> Seq<char> {
    id.subrange(0, at_sign(id, 0))
}

/// The version part of a package id: what stands between its first `@` and the next one;
/// empty when it has no `@`.
pub open spec fn id_version(id: Seq<char>) -> Seq<char> {
    let e = at_sign(id, 0);
    if e < id.len() {
        id.subrange(e + 1, at_sign(id, e + 1))
    } else {
        seq![]
    }
}

proof fn lemma_at_sign_bounds(s: Seq<char>, i: int)
    requires
        0 <= i <= s.len(),
    ensures
        i <= at_sign(s, i) <= s.len(),
    decreases s.len() - i,
{
    if i < s.len() && s[i] != '@' {
        lemma_at_sign_bounds(s, i + 1);
    }
}

/// The characters of `id` from `start` up to its next `@`, and where that `@` stands.
fn take_until_at(id: &str, start: usize) -> (r: (String, usize))
    requires
        start <= id@.len(),
    ensures
        r.1 == at_sign(id@, start as int),
        r.0@ == id@.subrange(start as int, r.1 as int),
{
    let n = id.unicode_len();
    let mut part = String::new();
    let mut i = start;
    while i < n
        invariant
            n == id@.len(),
            start <= i <= n,
            part@ == id@.subrange(start as int, i as int),
            at_sign(id@, i as int) == at_sign(id@, start as int),
        ensures
            i == at_sign(id@, start as int),
            part@ == id@.subrange(start as int, i as int),
        decreases n - i,
    {
        let c = id.get_char(i);
        if c == '@' {
            break;
        }
        push_char(&mut part, c);
        i = i + 1;
        proof {
            assert(part@ =~= id@.subrange(start as int, i as int));
        }
    }
    (part, i)
}

/// The listing line of the package `id`: its name and version, its installed size in
/// human-readable form or `-`, and whether it is obsolete.
pub fn info_row(id: &str, size: Option<u64>, defined: bool) -> (r: InfoRow)
    ensures
        r.name@ == id_name(id@),
        r.version@ == id_version(id@),
        r.size@ == match size {
            Some(b) => human_size(b),
            None => "-"@,
        },
        r.obsolete == !defined,
{
    proof {
        lemma_at_sign_bounds(id@, 0);
    }
    let (name, e) = take_until_at(id, 0);
    let version = if e < id.unicode_len() {
        take_until_at(id, e + 1).0
    } else {
        String::new()
    };
    let size = match size {
        Some(b) => format_size(b),
        None => String::from_str("-"),
    };
    InfoRow { name, version, size, obsolete: !defined }
}

/// The width of the name column: the longest name among the ids.
pub fn name_width(ids: &Vec<String>) -> (r: usize)
    ensures
        forall|i: int| 0 <= i < ids@.len() ==> id_name(#[trigger] ids@[i]@).len() <= r,
        ids@.len() == 0 ==> r == 0,
        ids@.len() > 0 ==> exists|i: int| 0 <= i < ids@.len() && id_name(#[trigger] ids@[i]@).len() == r,
{
    let mut width: usize = 0;
    let mut k: usize = 0;
    while k < ids.len()
        invariant
            k <= ids.len(),
            forall|i: int| 0 <= i < k ==> id_name(#[trigger] ids@[i]@).len() <= width,
            k == 0 ==> width == 0,
            k > 0 ==> exists|i: int| 0 <= i < k && id_name(#[trigger] ids@[i]@).len() == width,
        decreases ids.len() - k,
    {
        proof {
            lemma_at_sign_bounds(ids@[k as int]@, 0);
        }
        let (name, _) = take_until_at(ids[k].as_str(), 0);
        let len = name.as_str().unicode_len();
        if k == 0 || len > width {
            width = len;
        }
        k = k + 1;
    }
    width
}

} // verus!
