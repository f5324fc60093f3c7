//! The versions cache: one line per kernel installed from a theatre, of the
//! form `<kernel> <checksum> <url>`, read back when the kernel is updated.

use vstd::prelude::*;

use crate::checksum::{hex_lower, hex_string, lemma_hex_lower, is_hex_digit};
use crate::text::{
    contains, contains_str, is_field_sep, lemma_find, lemma_find_is, lemma_split_fields_cons,
    lemma_split_fields_single, lemma_split_char_cons, lemma_split_nonempty, lemma_find_same_prefix, find, occurs_at, split, split_fields, split_fields_str, split_first,
    split_first_str, split_str, text_eq,
};

verus! {

/// The line that records `kernel` with checksum `hex` downloaded from `url`.
pub open spec fn version_entry(kernel: Seq<char>, hex: Seq<char>, url: Seq<char>) -> Seq<char> {
    kernel + seq![' '] + hex + seq![' '] + url + seq!['\n']
}

/// What follows the first mention of `kernel` in the cache.
pub open spec fn after_kernel(contents: Seq<char>, kernel: Seq<char>) -> Seq<char> {
    split_first(contents, kernel)[1]
}

/// The checksum that an existing record is taken to hold: the text between
/// the first and the second space after the kernel's name.
pub open spec fn recorded_checksum(contents: Seq<char>, kernel: Seq<char>) -> Seq<char> {
    split(after_kernel(contents, kernel), seq![' '])[1]
}

/// The cache with the checksum after the first mention of `kernel` replaced
/// by `hex`: what stands before the mention, the name, a space, `hex`, and
/// the text between the first and second occurrence of the old checksum.
pub open spec fn rewritten_versions(contents: Seq<char>, kernel: Seq<char>, hex: Seq<char>) -> Seq<
    char,
> {
    let rest = after_kernel(contents, kernel);
    let remaining = split(rest, recorded_checksum(contents, kernel));
    split_first(contents, kernel)[0] + kernel + seq![' '] + hex + remaining[1]
}

/// Recording leaves the cache alone.
pub open spec fn record_keeps(contents: Seq<char>, kernel: Seq<char>, hex: Seq<char>) -> bool {
    contains(contents, kernel) && contains(contents, hex)
}

/// Recording appends a new line.
pub open spec fn record_appends(contents: Seq<char>, kernel: Seq<char>) -> bool {
    !contains(contents, kernel)
}

/// Recording rewrites the checksum of an existing line.
pub open spec fn record_rewrites(contents: Seq<char>, kernel: Seq<char>, hex: Seq<char>) -> bool {
    contains(contents, kernel) && !contains(contents, hex)
}

/// The inputs on which recording runs to its end: a rewrite needs a space
/// after the kernel's name, and the old checksum found again after it.
pub open spec fn record_is_safe(contents: Seq<char>, kernel: Seq<char>, hex: Seq<char>) -> bool {
    record_rewrites(contents, kernel, hex) ==> {
        &&& split(after_kernel(contents, kernel), seq![' ']).len() >= 2
        &&& split(after_kernel(contents, kernel), recorded_checksum(contents, kernel)).len() >= 2
    }
}

/// How the versions cache is to be changed.
pub enum VersionsEdit {
    /// The kernel and this checksum are already there.
    Unchanged,
    /// This line is to be appended to the cache.
    Append(String),
    /// The cache is to be replaced by this text.
    Rewrite(String),
}

/// Whether `split_first(contents, kernel)` cut the text in two.
proof fn lemma_split_first_len(contents: Seq<char>, kernel: Seq<char>)
    ensures
        split_first(contents, kernel).len() == 2 <==> contains(contents, kernel),
        split_first(contents, kernel).len() == 1 <==> !contains(contents, kernel),
{
    lemma_find(contents, kernel);
}

/// Whether recording `checksum` for `kernel_name` runs to its end on this
/// cache (see `record_version`).
pub fn record_version_is_safe(contents: &str, kernel_name: &str, checksum: &[u8; 16]) -> (r: bool)
    ensures
        r == record_is_safe(contents@, kernel_name@, hex_lower(checksum@)),
{
    let hex = hex_string(checksum.as_slice());
    if !contains_str(contents, kernel_name) || contains_str(contents, hex.as_str()) {
        return true;
    }
    proof {
        lemma_split_first_len(contents@, kernel_name@);
        reveal_strlit(" ");
        assert(" "@ =~= seq![' ']);
    }
    let split_contents = split_first_str(contents, kernel_name);
    let rest = split_contents[1].as_str();
    let check_split = split_str(rest, " ");
    if check_split.len() < 2 {
        return false;
    }
    let old = check_split[1].as_str();
    let remaining = split_str(rest, old);
    remaining.len() >= 2
}

/// The change that records `kernel_name` with `checksum` and `url` in the
/// versions cache `contents`: a new line when the name is not in the cache;
/// when it is and the checksum is not, the cache with the old checksum
/// replaced (the recorded url is kept); else nothing.
pub fn record_version(contents: &str, kernel_name: &str, checksum: &[u8; 16], url: &str) -> (edit:
    VersionsEdit)
    requires
        record_is_safe(contents@, kernel_name@, hex_lower(checksum@)),
    ensures
        match edit {
            VersionsEdit::Append(line) => record_appends(contents@, kernel_name@) && line@
                == version_entry(kernel_name@, hex_lower(checksum@), url@),
            VersionsEdit::Rewrite(all) => record_rewrites(
                contents@,
                kernel_name@,
                hex_lower(checksum@),
            ) && all@ == rewritten_versions(contents@, kernel_name@, hex_lower(checksum@)),
            VersionsEdit::Unchanged => record_keeps(contents@, kernel_name@, hex_lower(checksum@)),
        },
{
    let hex = hex_string(checksum.as_slice());
    proof {
        reveal_strlit(" ");
        reveal_strlit("\n");
        assert(" "@ =~= seq![' ']);
        assert("\n"@ =~= seq!['\n']);
        lemma_split_first_len(contents@, kernel_name@);
    }
    if !contains_str(contents, kernel_name) {
        let mut line = kernel_name.to_owned();
        line.append(" ");
        line.append(hex.as_str());
        line.append(" ");
        line.append(url);
        line.append("\n");
        VersionsEdit::Append(line)
    } else if !contains_str(contents, hex.as_str()) {
        let split_contents = split_first_str(contents, kernel_name);
        let rest = split_contents[1].as_str();
        let check_split = split_str(rest, " ");
        let old = check_split[1].as_str();
        let remaining_split = split_str(rest, old);
        let mut updated = split_contents[0].clone();
        updated.append(kernel_name);
        updated.append(" ");
        updated.append(hex.as_str());
        updated.append(remaining_split[1].as_str());
        VersionsEdit::Rewrite(updated)
    } else {
        VersionsEdit::Unchanged
    }
}

/// The fields of the record of `kernel`: what follows its first mention,
/// split at spaces and line ends.
pub open spec fn entry_fields(contents: Seq<char>, kernel: Seq<char>) -> Seq<Seq<char>> {
    split_fields(after_kernel(contents, kernel))
}

/// The cache mentions `kernel`, with at least two fields after it.
pub open spec fn has_entry(contents: Seq<char>, kernel: Seq<char>) -> bool {
    contains(contents, kernel) && entry_fields(contents, kernel).len() >= 3
}

/// Whether `lookup_version` can read a record of `kernel_name`.
pub fn has_version_entry(contents: &str, kernel_name: &str) -> (r: bool)
    ensures
        r == has_entry(contents@, kernel_name@),
{
    if !contains_str(contents, kernel_name) {
        return false;
    }
    proof {
        lemma_split_first_len(contents@, kernel_name@);
    }
    let parts = split_first_str(contents, kernel_name);
    let fields = split_fields_str(parts[1].as_str());
    fields.len() >= 3
}

/// The checksum and the url recorded for `kernel_name`: the first two fields
/// after its first mention in the cache.
pub fn lookup_version(contents: &str, kernel_name: &str) -> (r: (String, String))
    requires
        has_entry(contents@, kernel_name@),
    ensures
        r.0@ == entry_fields(contents@, kernel_name@)[1],
        r.1@ == entry_fields(contents@, kernel_name@)[2],
{
    proof {
        lemma_split_first_len(contents@, kernel_name@);
    }
    let parts = split_first_str(contents, kernel_name);
    let fields = split_fields_str(parts[1].as_str());
    (fields[1].clone(), fields[2].clone())
}

/// Whether a kernel whose recorded checksum is `old` needs to be
/// reinstalled, its fresh checksum being `new`.
pub fn needs_update(old: &str, new: &str) -> (r: bool)
    ensures
        r == (old@ != new@),
{
    !text_eq(old, new)
}

/// A checksum holds no field separator.
proof fn lemma_hex_no_sep(bytes: Seq<u8>)
    ensures
        forall|i: int| 0 <= i < hex_lower(bytes).len() ==> !is_field_sep(#[trigger] hex_lower(bytes)[i]),
        hex_lower(bytes).len() == 2 * bytes.len(),
{
    lemma_hex_lower(bytes);
    assert forall|i: int| 0 <= i < hex_lower(bytes).len() implies !is_field_sep(
        #[trigger] hex_lower(bytes)[i],
    ) by {
        assert(is_hex_digit(hex_lower(bytes)[i]));
    }
}

/// A record appended to a cache that ends at a line end is read back: the
/// lookup of the kernel finds the checksum and the url just recorded.
pub proof fn law_appended_version_is_found(
    contents: Seq<char>,
    kernel: Seq<char>,
    checksum: Seq<u8>,
    url: Seq<char>,
)
    requires
        record_appends(contents, kernel),
        contents.len() == 0 || contents.last() == '\n',
        !kernel.contains('\n'),
        forall|i: int| 0 <= i < url.len() ==> !is_field_sep(#[trigger] url[i]),
        checksum.len() > 0,
    ensures
        has_entry(contents + version_entry(kernel, hex_lower(checksum), url), kernel),
        entry_fields(contents + version_entry(kernel, hex_lower(checksum), url), kernel)[1]
            == hex_lower(checksum),
        entry_fields(contents + version_entry(kernel, hex_lower(checksum), url), kernel)[2] == url,
{
    let hex = hex_lower(checksum);
    let s = contents + version_entry(kernel, hex, url);
    let c = contents.len() as int;
    let k = kernel.len() as int;
    lemma_hex_no_sep(checksum);
    assert(s.subrange(c, c + k) =~= kernel);
    assert forall|j: int| 0 <= j < c implies !occurs_at(s, kernel, j) by {
        if occurs_at(s, kernel, j) {
            if j + k <= c {
                assert(contents.subrange(j, j + k) =~= s.subrange(j, j + k));
                assert(occurs_at(contents, kernel, j));
            } else {
                assert(s.subrange(j, j + k)[c - 1 - j] == s[c - 1]);
                assert(kernel[c - 1 - j] == '\n');
            }
        }
    }
    lemma_find_is(s, kernel, c);
    let rest = seq![' '] + hex + seq![' '] + url + seq!['\n'];
    assert(s.skip(c + k) =~= rest);
    assert(occurs_at(s, kernel, c));
    assert(contains(s, kernel));
    lemma_split_fields_cons(Seq::<char>::empty(), ' ', hex + seq![' '] + url + seq!['\n']);
    assert(rest =~= Seq::<char>::empty() + seq![' '] + (hex + seq![' '] + url + seq!['\n']));
    lemma_split_fields_cons(hex, ' ', url + seq!['\n']);
    assert(hex + seq![' '] + url + seq!['\n'] =~= hex + seq![' '] + (url + seq!['\n']));
    lemma_split_fields_cons(url, '\n', Seq::<char>::empty());
    assert(url + seq!['\n'] =~= url + seq!['\n'] + Seq::<char>::empty());
    lemma_split_fields_single(Seq::<char>::empty());
}

/// A record `<kernel> <checksum> <url>` added to a cache that does not yet
/// mention the kernel, after its last line end, is read back with that
/// checksum and that url, each whole: the fields stop only at spaces and line
/// ends, so a url keeps its dots, dashes, colons and slashes.
pub proof fn law_record_is_read_back_whole(
    contents: Seq<char>,
    kernel: Seq<char>,
    hex: Seq<char>,
    url: Seq<char>,
)
    requires
        !contains(contents, kernel),
        contents.len() == 0 || contents.last() == '\n',
        !kernel.contains('\n'),
        forall|i: int| 0 <= i < hex.len() ==> #[trigger] hex[i] != ' ' && hex[i] != '\n',
        forall|i: int| 0 <= i < url.len() ==> #[trigger] url[i] != ' ' && url[i] != '\n',
    ensures
        has_entry(contents + version_entry(kernel, hex, url), kernel),
        entry_fields(contents + version_entry(kernel, hex, url), kernel)[1] == hex,
        entry_fields(contents + version_entry(kernel, hex, url), kernel)[2] == url,
{
    let s = contents + version_entry(kernel, hex, url);
    let c = contents.len() as int;
    let k = kernel.len() as int;
    assert(s.subrange(c, c + k) =~= kernel);
    assert forall|j: int| 0 <= j < c implies !occurs_at(s, kernel, j) by {
        if occurs_at(s, kernel, j) {
            if j + k <= c {
                assert(contents.subrange(j, j + k) =~= s.subrange(j, j + k));
                assert(occurs_at(contents, kernel, j));
            } else {
                assert(s.subrange(j, j + k)[c - 1 - j] == s[c - 1]);
                assert(kernel[c - 1 - j] == '\n');
            }
        }
    }
    lemma_find_is(s, kernel, c);
    assert(occurs_at(s, kernel, c));
    assert(contains(s, kernel));
    assert(s.skip(c + k) =~= seq![' '] + hex + seq![' '] + url + seq!['\n'] + Seq::<char>::empty());
    lemma_record_fields(hex, url, Seq::<char>::empty());
    lemma_split_fields_single(Seq::<char>::empty());
}

/// Recording the same kernel and checksum a second time changes nothing.
pub proof fn law_record_is_idempotent(
    contents: Seq<char>,
    kernel: Seq<char>,
    checksum: Seq<u8>,
    url: Seq<char>,
)
    requires
        record_appends(contents, kernel),
    ensures
        record_keeps(contents + version_entry(kernel, hex_lower(checksum), url), kernel, hex_lower(checksum)),
{
    let hex = hex_lower(checksum);
    let s = contents + version_entry(kernel, hex, url);
    let c = contents.len() as int;
    let k = kernel.len() as int;
    assert(s.subrange(c, c + k) =~= kernel);
    assert(occurs_at(s, kernel, c));
    assert(s.subrange(c + k + 1, c + k + 1 + hex.len()) =~= hex);
    assert(occurs_at(s, hex, c + k + 1));
}


/// The fields after a well-formed record: an empty field before the first
/// space, then the checksum, then the url.
proof fn lemma_record_fields(hex: Seq<char>, url: Seq<char>, tail: Seq<char>)
    requires
        forall|i: int| 0 <= i < hex.len() ==> !is_field_sep(#[trigger] hex[i]),
        forall|i: int| 0 <= i < url.len() ==> !is_field_sep(#[trigger] url[i]),
    ensures
        split_fields(seq![' '] + hex + seq![' '] + url + seq!['\n'] + tail) == seq![
            Seq::<char>::empty(),
            hex,
            url,
        ] + split_fields(tail),
{
    let rest = seq![' '] + hex + seq![' '] + url + seq!['\n'] + tail;
    let x = hex + seq![' '] + url + seq!['\n'] + tail;
    assert(rest =~= Seq::<char>::empty() + seq![' '] + x);
    lemma_split_fields_cons(Seq::<char>::empty(), ' ', x);
    let y = url + seq!['\n'] + tail;
    assert(x =~= hex + seq![' '] + y);
    lemma_split_fields_cons(hex, ' ', y);
    assert(y =~= url + seq!['\n'] + tail);
    lemma_split_fields_cons(url, '\n', tail);
    assert(seq![Seq::<char>::empty()] + (seq![hex] + (seq![url] + split_fields(tail))) =~= seq![
        Seq::<char>::empty(),
        hex,
        url,
    ] + split_fields(tail));
}

/// A record whose checksum is rewritten with a fresh one is read back with
/// the fresh checksum and the url that it had: the url given to the second
/// recording is not used. When the old checksum does not occur again later
/// in the cache, the rewrite changes nothing but that checksum: what stands
/// before the record and every line after it are kept. Recording the same
/// kernel and checksum once more then changes nothing.
#[verifier::rlimit(60)]
pub proof fn law_rewritten_version_is_found(
    contents: Seq<char>,
    kernel: Seq<char>,
    checksum: Seq<u8>,
    old: Seq<char>,
    url: Seq<char>,
    tail: Seq<char>,
)
    requires
        contains(contents, kernel),
        after_kernel(contents, kernel) == seq![' '] + old + seq![' '] + url + seq!['\n'] + tail,
        old.len() > 0,
        forall|i: int| 0 <= i < old.len() ==> !is_field_sep(#[trigger] old[i]),
        forall|i: int| 0 <= i < url.len() ==> !is_field_sep(#[trigger] url[i]),
        !contains(url, old),
        !contains(contents, hex_lower(checksum)),
        checksum.len() > 0,
    ensures
        has_entry(contents, kernel),
        entry_fields(contents, kernel)[1] == old,
        entry_fields(contents, kernel)[2] == url,
        record_rewrites(contents, kernel, hex_lower(checksum)),
        record_is_safe(contents, kernel, hex_lower(checksum)),
        has_entry(rewritten_versions(contents, kernel, hex_lower(checksum)), kernel),
        entry_fields(rewritten_versions(contents, kernel, hex_lower(checksum)), kernel)[1]
            == hex_lower(checksum),
        entry_fields(rewritten_versions(contents, kernel, hex_lower(checksum)), kernel)[2] == url,
        contents == split_first(contents, kernel)[0] + kernel + seq![' '] + old + seq![' '] + url
            + seq!['\n'] + tail,
        !contains(tail, old) ==> rewritten_versions(contents, kernel, hex_lower(checksum))
            == split_first(contents, kernel)[0] + kernel + seq![' '] + hex_lower(checksum) + seq![
            ' ',
        ] + url + seq!['\n'] + tail,
        record_keeps(
            rewritten_versions(contents, kernel, hex_lower(checksum)),
            kernel,
            hex_lower(checksum),
        ),
{
    let hex = hex_lower(checksum);
    lemma_hex_no_sep(checksum);
    lemma_find(contents, kernel);
    let p = find(contents, kernel);
    let k = kernel.len() as int;
    let rest = after_kernel(contents, kernel);
    let pre = contents.take(p);
    // the old record reads back as it stands
    lemma_record_fields(old, url, tail);
    // the old checksum is the second piece at spaces
    let x = old + seq![' '] + (url + seq!['\n'] + tail);
    assert(rest =~= Seq::<char>::empty() + seq![' '] + x);
    lemma_split_char_cons(Seq::<char>::empty(), ' ', x);
    assert(!old.contains(' ')) by {
        if old.contains(' ') {
            let i = choose|i: int| 0 <= i < old.len() && old[i] == ' ';
            assert(!is_field_sep(old[i]));
        }
    }
    lemma_split_char_cons(old, ' ', url + seq!['\n'] + tail);
    assert(split(rest, seq![' '])[1] == old);
    // the old checksum first occurs right after the first space
    let m = old.len() as int;
    assert(rest.subrange(1, 1 + m) =~= old);
    assert(!occurs_at(rest, old, 0)) by {
        if occurs_at(rest, old, 0) {
            assert(rest.subrange(0, m)[0] == rest[0]);
            assert(!is_field_sep(old[0]));
        }
    }
    lemma_find_is(rest, old, 1);
    let r2 = rest.skip(1 + m);
    assert(r2 =~= seq![' '] + url + seq!['\n'] + tail);
    lemma_split_nonempty(r2, old);
    assert(split(rest, old) == seq![rest.take(1)] + split(r2, old));
    // the piece after it keeps the url and its line end
    let n = url.len() as int + 2;
    let head = seq![' '] + url + seq!['\n'];
    assert forall|j: int| 0 <= j < n implies !occurs_at(r2, old, j) by {
        if occurs_at(r2, old, j) {
            if j == 0 {
                assert(r2.subrange(0, m)[0] == r2[0]);
                assert(!is_field_sep(old[0]));
            } else if j + m <= n - 1 {
                assert(url.subrange(j - 1, j - 1 + m) =~= r2.subrange(j, j + m));
                assert(occurs_at(url, old, j - 1));
            } else {
                assert(r2.subrange(j, j + m)[n - 1 - j] == r2[n - 1]);
                assert(!is_field_sep(old[n - 1 - j]));
            }
        }
    }
    lemma_find(r2, old);
    if !contains(tail, old) {
        assert forall|j: int| n <= j implies !occurs_at(r2, old, j) by {
            if occurs_at(r2, old, j) {
                assert(tail.subrange(j - n, j - n + m) =~= r2.subrange(j, j + m));
                assert(occurs_at(tail, old, j - n));
            }
        }
        assert(!contains(r2, old));
    }
    let w = split(r2, old)[0];
    let f = find(r2, old);
    if f == -1 {
        assert(split(r2, old) == seq![r2]);
    } else {
        assert(f >= n);
        assert(split(r2, old) == seq![r2.take(f)] + split(r2.skip(f + m), old));
    }
    assert(w.len() >= n);
    assert(w.take(n) =~= head);
    let w2 = w.skip(n);
    assert(w =~= head + w2);
    assert(rewritten_versions(contents, kernel, hex) == pre + kernel + seq![' '] + hex + w);
    let updated = pre + kernel + seq![' '] + hex + w;
    // the kernel's first mention does not move
    assert(contents.subrange(p, p + k) =~= kernel);
    assert(contents.take(p + k) =~= updated.take(p + k));
    lemma_find_same_prefix(contents, updated, kernel);
    assert(pre.len() == p);
    assert(updated.subrange(p, p + k) =~= kernel);
    assert(occurs_at(updated, kernel, p));
    assert(updated.skip(p + k) =~= seq![' '] + hex + seq![' '] + url + seq!['\n'] + w2);
    lemma_record_fields(hex, url, w2);
    // the whole cache around the record
    assert(contents.take(p + k) =~= pre + kernel);
    assert(contents =~= contents.take(p + k) + contents.skip(p + k));
    if !contains(tail, old) {
        assert(w =~= r2);
        assert(w2 =~= tail);
    }
    // a second recording finds both the kernel and its checksum
    assert(updated.subrange(p + k + 1, p + k + 1 + hex.len()) =~= hex);
    assert(occurs_at(updated, hex, p + k + 1));
}

} // verus!
