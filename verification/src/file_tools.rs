//! The file tools: what they ask of the file system, and how they report it.
//! Reading, writing and walking directories happen outside this module; here
//! are the checks of the arguments, the decisions between steps, streamed
//! find-and-replace, and the wording of every answer.

use vstd::prelude::*;
use crate::error::HeliosError;
use crate::json::{JsonValue, str_arg, bool_arg, u64_arg};
use crate::text::{owned, push_str, str_eq, decimal, usize_to_string, u64_to_string, utf8_len, byte_len, join, lines, trim, contains, starts_with, replace_text, str_replace};
use crate::text_tool::{CompiledRegex, compile_regex, is_match, regex_is_match, regex_compile_error};
use crate::tools::{ToolResult, is_tool_error, tool_ok, tool_failed};

verus! {

/// Whether the bytes `n` occur in `h` at `i`.
pub open spec fn bytes_at(h: Seq<u8>, n: Seq<u8>, i: int) -> bool {
    0 <= i && i + n.len() <= h.len() && h.subrange(i, i + n.len()) == n
}

/// The first position at which the non-empty `n` occurs in `h`, or -1.
pub open spec fn byte_find(h: Seq<u8>, n: Seq<u8>) -> int
    decreases h.len(),
{
    if h.len() < n.len() || n.len() == 0 {
        -1
    } else if h.subrange(0, n.len() as int) == n {
        0
    } else {
        let r = byte_find(h.drop_first(), n);
        if r < 0 {
            -1
        } else {
            r + 1
        }
    }
}

/// `byte_find` finds the first occurrence, or says there is none.
pub proof fn lemma_byte_find(h: Seq<u8>, n: Seq<u8>)
    requires
        n.len() > 0,
    ensures
        byte_find(h, n) >= 0 ==> bytes_at(h, n, byte_find(h, n)) && forall|j: int| 0 <= j < byte_find(h, n) ==> !bytes_at(h, n, j),
        byte_find(h, n) < 0 ==> forall|j: int| !bytes_at(h, n, j),
        byte_find(h, n) >= -1,
    decreases h.len(),
{
    if h.len() < n.len() {
    } else if h.subrange(0, n.len() as int) == n {
    } else {
        let t = h.drop_first();
        lemma_byte_find(t, n);
        assert forall|j: int| 0 <= j implies bytes_at(h, n, j + 1) == bytes_at(t, n, j) by {
            if j + 1 + n.len() <= h.len() {
                assert(h.subrange(j + 1, j + 1 + n.len()) =~= t.subrange(j, j + n.len()));
            }
        }
        assert(!bytes_at(h, n, 0));
        if byte_find(t, n) < 0 {
            assert forall|j: int| !bytes_at(h, n, j) by {
                if j > 0 && bytes_at(h, n, j) {
                    assert(bytes_at(t, n, j - 1));
                }
            }
        } else {
            let r = byte_find(t, n);
            assert forall|j: int| 0 <= j < r + 1 implies !bytes_at(h, n, j) by {
                if j > 0 {
                    assert(!bytes_at(t, n, j - 1));
                }
            }
        }
    }
}

/// The bytes `h` with every occurrence of `n`, found from the left and without
/// overlap, replaced by `r`, and the number of occurrences replaced; an empty
/// `n` replaces nothing.
pub open spec fn replace_bytes(h: Seq<u8>, n: Seq<u8>, r: Seq<u8>) -> (Seq<u8>, nat)
    decreases h.len(),
{
    let k = byte_find(h, n);
    if n.len() == 0 || k < 0 {
        (h, 0)
    } else {
        proof {
            lemma_byte_find(h, n);
        }
        let rest = replace_bytes(h.subrange(k + n.len(), h.len() as int), n, r);
        (h.subrange(0, k) + r + rest.0, rest.1 + 1)
    }
}

fn bytes_at_exec(h: &[u8], n: &[u8], i: usize) -> (b: bool)
    ensures
        b == bytes_at(h@, n@, i as int),
{
    if i > h.len() || n.len() > h.len() - i {
        return false;
    }
    let mut j: usize = 0;
    while j < n.len()
        invariant
            i + n@.len() <= h@.len(),
            h@.len() == h.len(),
            n@.len() == n.len(),
            j <= n@.len(),
            forall|k: int| 0 <= k < j ==> h@[i + k] == n@[k],
        decreases n@.len() - j,
    {
        if h[i + j] != n[j] {
            assert(h@.subrange(i as int, i + n@.len())[j as int] != n@[j as int]);
            return false;
        }
        j = j + 1;
    }
    assert(h@.subrange(i as int, i + n@.len()) =~= n@);
    true
}

/// The first position at which `n` occurs in `h` (position 0 for an empty `n`).
pub fn find_subslice(h: &[u8], n: &[u8]) -> (r: Option<usize>)
    ensures
        n@.len() == 0 ==> r == Some(0usize),
        n@.len() > 0 ==> match r {
            Some(i) => i as int == byte_find(h@, n@),
            None => byte_find(h@, n@) < 0,
        },
{
    if n.len() == 0 {
        return Some(0);
    }
    proof {
        lemma_byte_find(h@, n@);
    }
    let mut i: usize = 0;
    while i < h.len()
        invariant
            n@.len() > 0,
            h@.len() == h.len(),
            forall|j: int| 0 <= j < i ==> !bytes_at(h@, n@, j),
        decreases h@.len() - i,
    {
        if bytes_at_exec(h, n, i) {
            assert(byte_find(h@, n@) == i as int) by {
                let f = byte_find(h@, n@);
                if f < 0 {
                    assert(!bytes_at(h@, n@, i as int));
                } else if f > i {
                    assert(!bytes_at(h@, n@, i as int));
                }
            }
            return Some(i);
        }
        i = i + 1;
    }
    assert(byte_find(h@, n@) < 0) by {
        let f = byte_find(h@, n@);
        if f >= 0 {
            assert(bytes_at(h@, n@, f));
        }
    }
    None
}

fn append_bytes(out: &mut Vec<u8>, b: &[u8], lo: usize, hi: usize)
    requires
        lo <= hi <= b@.len(),
    ensures
        final(out)@ == old(out)@ + b@.subrange(lo as int, hi as int),
{
    let mut i = lo;
    while i < hi
        invariant
            lo <= i <= hi <= b@.len(),
            out@ == old(out)@ + b@.subrange(lo as int, i as int),
        decreases hi - i,
    {
        out.push(b[i]);
        i = i + 1;
        assert(out@ =~= old(out)@ + b@.subrange(lo as int, i as int));
    }
}

/// Appends `haystack` to `out` with every occurrence of `needle` replaced by
/// `replacement` (nothing replaced for an empty needle), and returns how many
/// were replaced.
pub fn write_with_replacements(out: &mut Vec<u8>, haystack: &[u8], needle: &[u8], replacement: &[u8]) -> (count: usize)
    ensures
        final(out)@ == old(out)@ + replace_bytes(haystack@, needle@, replacement@).0,
        count == replace_bytes(haystack@, needle@, replacement@).1,
{
    if needle.len() == 0 {
        append_bytes(out, haystack, 0, haystack.len());
        assert(haystack@.subrange(0, haystack@.len() as int) =~= haystack@);
        return 0;
    }
    let mut count: usize = 0;
    let mut i: usize = 0;
    let ghost total = replace_bytes(haystack@, needle@, replacement@);
    assert(haystack@.subrange(0, haystack@.len() as int) =~= haystack@);
    let ghost out0 = out@;
    let ghost done: Seq<u8> = Seq::empty();
    while i <= haystack.len()
        invariant
            i <= haystack@.len(),
            needle@.len() > 0,
            out@ == out0 + done,
            ({
                let rest = replace_bytes(haystack@.subrange(i as int, haystack@.len() as int), needle@, replacement@);
                total.0 == done + rest.0 && total.1 == count + rest.1
            }),
            count <= i,
        decreases haystack@.len() - i,
    {
        let ghost rest_h = haystack@.subrange(i as int, haystack@.len() as int);
        let tail = vstd::slice::slice_subrange(haystack, i, haystack.len());
        assert(tail@ == rest_h);
        proof {
            lemma_byte_find(rest_h, needle@);
        }
        match find_subslice(tail, needle) {
            Some(pos) => {
                let idx = i + pos;
                append_bytes(out, haystack, i, idx);
                append_bytes(out, replacement, 0, replacement.len());
                proof {
                    assert(replacement@.subrange(0, replacement@.len() as int) =~= replacement@);
                    assert(rest_h.subrange(0, pos as int) =~= haystack@.subrange(i as int, idx as int));
                    assert(rest_h.subrange(pos + needle@.len(), rest_h.len() as int) =~= haystack@.subrange(
                        idx + needle@.len(),
                        haystack@.len() as int,
                    ));
                    done = done + haystack@.subrange(i as int, idx as int) + replacement@;
                    assert(out@ =~= out0 + done);
                }
                count = count + 1;
                i = idx + needle.len();
            },
            None => {
                append_bytes(out, haystack, i, haystack.len());
                proof {
                    done = done + rest_h;
                    assert(out@ =~= out0 + done);
                    assert(total.0 =~= done);
                }
                return count;
            },
        }
    }
    count
}

/// Where the bytes pending after a read are cut when no whole occurrence of the
/// needle is left in them: everything before the last `needle.len() - 1` bytes
/// can be written out, since no occurrence can begin there; those last bytes
/// could still begin one and are kept back. With an empty needle nothing is kept.
pub open spec fn hold_cut(c: Seq<u8>, n: Seq<u8>) -> int {
    if n.len() == 0 {
        c.len() as int
    } else if c.len() + 1 >= n.len() {
        c.len() - (n.len() - 1)
    } else {
        0
    }
}

/// What the stream does with the bytes `c` pending after a read: each whole
/// occurrence of the needle, from the left and without overlap, is replaced and
/// written out with what precedes it; after the last one, the bytes that cannot
/// begin an occurrence are written out and the rest kept back. The result is
/// what it writes, how many occurrences it replaces, and what it keeps back.
pub open spec fn stream_step(c: Seq<u8>, n: Seq<u8>, r: Seq<u8>) -> (Seq<u8>, nat, Seq<u8>)
    decreases c.len(),
{
    let k = byte_find(c, n);
    if n.len() > 0 && k >= 0 {
        proof {
            lemma_byte_find(c, n);
        }
        let rest = stream_step(c.subrange(k + n.len(), c.len() as int), n, r);
        (c.subrange(0, k) + r + rest.0, rest.1 + 1, rest.2)
    } else {
        let cut = hold_cut(c, n);
        (c.subrange(0, cut), 0, c.subrange(cut, c.len() as int))
    }
}

/// Replacing in bytes that have no occurrence of the needle before position `p`
/// leaves the first `p` bytes as they are.
pub proof fn lemma_replace_after_clear_prefix(h: Seq<u8>, n: Seq<u8>, r: Seq<u8>, p: int)
    requires
        0 <= p <= h.len(),
        n.len() > 0 ==> forall|j: int| 0 <= j < p ==> !bytes_at(h, n, j),
    ensures
        replace_bytes(h, n, r) == (
            h.subrange(0, p) + replace_bytes(h.subrange(p, h.len() as int), n, r).0,
            replace_bytes(h.subrange(p, h.len() as int), n, r).1,
        ),
{
    let t = h.subrange(p, h.len() as int);
    if n.len() == 0 {
        assert(h =~= h.subrange(0, p) + t);
        return;
    }
    lemma_byte_find(h, n);
    lemma_byte_find(t, n);
    assert forall|j: int| 0 <= j implies #[trigger] bytes_at(t, n, j) == bytes_at(h, n, p + j) by {
        if j + n.len() <= t.len() {
            assert(t.subrange(j, j + n.len()) =~= h.subrange(p + j, p + j + n.len()));
        }
    }
    let f = byte_find(h, n);
    let g = byte_find(t, n);
    if f < 0 {
        if g >= 0 {
            assert(bytes_at(h, n, p + g));
        }
        assert(h =~= h.subrange(0, p) + t);
    } else {
        assert(f >= p) by {
            if f < p {
                assert(!bytes_at(h, n, f));
            }
        }
        assert(bytes_at(t, n, f - p));
        assert(g == f - p) by {
            if g < 0 {
                assert(!bytes_at(t, n, f - p));
            } else if g < f - p {
                assert(bytes_at(h, n, p + g));
            } else if g > f - p {
                assert(!bytes_at(t, n, f - p));
            }
        }
        assert(t.subrange(0, g) =~= h.subrange(p, f));
        assert(t.subrange(g + n.len(), t.len() as int) =~= h.subrange(f + n.len(), h.len() as int));
        assert(h.subrange(0, f) =~= h.subrange(0, p) + h.subrange(p, f));
    }
}

/// What the stream writes for the pending bytes `c`, followed by the whole
/// replacement of what it keeps back and of everything read after, is the whole
/// replacement of `c` and everything read after: no occurrence is lost or
/// added at the cut.
pub proof fn lemma_stream_step(c: Seq<u8>, x: Seq<u8>, n: Seq<u8>, r: Seq<u8>)
    ensures
        ({
            let s = stream_step(c, n, r);
            let rest = replace_bytes(s.2 + x, n, r);
            replace_bytes(c + x, n, r) == (s.0 + rest.0, s.1 + rest.1)
        }),
        stream_step(c, n, r).1 + stream_step(c, n, r).2.len() <= c.len(),
    decreases c.len(),
{
    let h = c + x;
    if n.len() > 0 {
        lemma_byte_find(c, n);
    }
    let k = byte_find(c, n);
    assert forall|j: int| 0 <= j && j + n.len() <= c.len() implies #[trigger] bytes_at(h, n, j) == bytes_at(c, n, j) by {
        assert(h.subrange(j, j + n.len()) =~= c.subrange(j, j + n.len()));
    }
    if n.len() > 0 && k >= 0 {
        let m = n.len() as int;
        let c2 = c.subrange(k + m, c.len() as int);
        lemma_stream_step(c2, x, n, r);
        assert forall|j: int| 0 <= j < k implies !bytes_at(h, n, j) by {
            assert(!bytes_at(c, n, j));
        }
        lemma_replace_after_clear_prefix(h, n, r, k);
        let hk = h.subrange(k, h.len() as int);
        assert(hk.subrange(0, m) =~= n) by {
            assert(hk.subrange(0, m) =~= c.subrange(k, k + m));
        }
        assert(byte_find(hk, n) == 0);
        assert(hk.subrange(m, hk.len() as int) =~= c2 + x);
        assert(hk.subrange(0, 0) =~= Seq::<u8>::empty());
        assert(h.subrange(0, k) =~= c.subrange(0, k));
        let s2 = stream_step(c2, n, r);
        let rest = replace_bytes(s2.2 + x, n, r);
        assert(replace_bytes(hk, n, r).0 =~= r + replace_bytes(c2 + x, n, r).0);
        assert(replace_bytes(h, n, r).0 =~= c.subrange(0, k) + r + s2.0 + rest.0);
    } else {
        let cut = hold_cut(c, n);
        if n.len() > 0 {
            assert forall|j: int| 0 <= j < cut implies !bytes_at(h, n, j) by {
                assert(j + n.len() <= c.len());
                assert(!bytes_at(c, n, j));
            }
        }
        lemma_replace_after_clear_prefix(h, n, r, cut);
        assert(h.subrange(0, cut) =~= c.subrange(0, cut));
        assert(h.subrange(cut, h.len() as int) =~= c.subrange(cut, c.len() as int) + x);
        if n.len() == 0 {
            assert(c.subrange(cut, c.len() as int) =~= Seq::<u8>::empty());
        }
    }
}

/// Writes to `out` what the stream writes for the pending bytes `c`, and returns
/// how many occurrences it replaced and the bytes it keeps back.
fn write_step(out: &mut Vec<u8>, c: &[u8], needle: &[u8], replacement: &[u8]) -> (res: (usize, Vec<u8>))
    ensures
        final(out)@ == old(out)@ + stream_step(c@, needle@, replacement@).0,
        res.0 == stream_step(c@, needle@, replacement@).1,
        res.1@ == stream_step(c@, needle@, replacement@).2,
{
    let ghost total = stream_step(c@, needle@, replacement@);
    let ghost out0 = out@;
    let ghost done: Seq<u8> = Seq::empty();
    let mut count: usize = 0;
    let mut i: usize = 0;
    assert(c@.subrange(0, c@.len() as int) =~= c@);
    loop
        invariant
            i <= c@.len(),
            out@ == out0 + done,
            ({
                let rest = stream_step(c@.subrange(i as int, c@.len() as int), needle@, replacement@);
                &&& total.0 == done + rest.0
                &&& total.1 == count + rest.1
                &&& total.2 == rest.2
            }),
            count <= i,
        decreases c@.len() - i,
    {
        let ghost rest_c = c@.subrange(i as int, c@.len() as int);
        let tail = vstd::slice::slice_subrange(c, i, c.len());
        assert(tail@ == rest_c);
        proof {
            if needle@.len() > 0 {
                lemma_byte_find(rest_c, needle@);
            }
        }
        let found = if needle.len() > 0 { find_subslice(tail, needle) } else { None };
        match found {
            Some(pos) => {
                let idx = i + pos;
                append_bytes(out, c, i, idx);
                append_bytes(out, replacement, 0, replacement.len());
                proof {
                    assert(replacement@.subrange(0, replacement@.len() as int) =~= replacement@);
                    assert(rest_c.subrange(0, pos as int) =~= c@.subrange(i as int, idx as int));
                    assert(rest_c.subrange(pos + needle@.len(), rest_c.len() as int) =~= c@.subrange(
                        idx + needle@.len(),
                        c@.len() as int,
                    ));
                    done = done + c@.subrange(i as int, idx as int) + replacement@;
                    assert(out@ =~= out0 + done);
                }
                count = count + 1;
                i = idx + needle.len();
            },
            None => {
                let n = c.len();
                let cut: usize = if needle.len() == 0 {
                    n
                } else if n - i >= needle.len() - 1 {
                    n - (needle.len() - 1)
                } else {
                    i
                };
                assert(cut as int == i + hold_cut(rest_c, needle@));
                append_bytes(out, c, i, cut);
                let mut carry: Vec<u8> = Vec::new();
                append_bytes(&mut carry, c, cut, n);
                proof {
                    assert(rest_c.subrange(0, cut - i) =~= c@.subrange(i as int, cut as int));
                    assert(rest_c.subrange(cut - i, rest_c.len() as int) =~= c@.subrange(cut as int, n as int));
                    done = done + c@.subrange(i as int, cut as int);
                    assert(out@ =~= out0 + done);
                    assert(carry@ =~= c@.subrange(cut as int, n as int));
                }
                return (count, carry);
            },
        }
    }
}

/// Find-and-replace over a stream read in chunks: after each read, the pending
/// bytes are handled as `stream_step` says, so that an occurrence cut in two by
/// a read is still found once the rest of it arrives.
#[derive(Debug)]
pub struct StreamReplace {
    /// What to find.
    pub needle: Vec<u8>,
    /// What to put in its place.
    pub replacement: Vec<u8>,
    /// Bytes read and kept back.
    pub carry: Vec<u8>,
    /// Occurrences replaced so far.
    pub replaced: usize,
}

impl StreamReplace {
    /// Nothing read yet.
    pub fn new(needle: Vec<u8>, replacement: Vec<u8>) -> (s: Self)
        ensures
            s.needle == needle,
            s.replacement == replacement,
            s.carry@.len() == 0,
            s.replaced == 0,
    {
        StreamReplace { needle, replacement, carry: Vec::new(), replaced: 0 }
    }

    /// Takes the next chunk read: the kept-back bytes and the chunk are joined
    /// and handled as `stream_step` says, what it writes going to `out`.
    pub fn feed(&mut self, chunk: &[u8], out: &mut Vec<u8>)
        requires
            old(self).replaced + old(self).carry@.len() + chunk@.len() <= usize::MAX,
        ensures
            ({
                let s = stream_step(old(self).carry@ + chunk@, old(self).needle@, old(self).replacement@);
                &&& final(out)@ == old(out)@ + s.0
                &&& final(self).replaced == old(self).replaced + s.1
                &&& final(self).carry@ == s.2
                &&& final(self).needle == old(self).needle
                &&& final(self).replacement == old(self).replacement
            }),
            final(self).replaced + final(self).carry@.len() <= old(self).replaced + old(self).carry@.len() + chunk@.len(),
    {
        let mut combined: Vec<u8> = Vec::new();
        append_bytes(&mut combined, self.carry.as_slice(), 0, self.carry.len());
        append_bytes(&mut combined, chunk, 0, chunk.len());
        assert(old(self).carry@.subrange(0, old(self).carry@.len() as int) =~= old(self).carry@);
        assert(chunk@.subrange(0, chunk@.len() as int) =~= chunk@);
        proof {
            lemma_stream_step(combined@, Seq::empty(), self.needle@, self.replacement@);
        }
        let (c, rest) = write_step(out, combined.as_slice(), self.needle.as_slice(), self.replacement.as_slice());
        self.carry = rest;
        self.replaced = self.replaced + c;
    }

    /// Ends the stream: the kept-back bytes are written to `out` with the needle
    /// replaced. Returns the number of occurrences replaced in all.
    pub fn finish(&mut self, out: &mut Vec<u8>) -> (total: usize)
        requires
            old(self).replaced + old(self).carry@.len() <= usize::MAX,
        ensures
            ({
                let done = replace_bytes(old(self).carry@, old(self).needle@, old(self).replacement@);
                &&& final(out)@ == old(out)@ + done.0
                &&& total == old(self).replaced + done.1
                &&& final(self).replaced == total
                &&& final(self).carry@.len() == 0
            }),
    {
        let c = write_with_replacements(out, self.carry.as_slice(), self.needle.as_slice(), self.replacement.as_slice());
        proof {
            lemma_replace_count_bound(self.carry@, self.needle@, self.replacement@);
        }
        self.carry = Vec::new();
        self.replaced = self.replaced + c;
        self.replaced
    }
}

/// No more occurrences are replaced than there are bytes.
pub proof fn lemma_replace_count_bound(h: Seq<u8>, n: Seq<u8>, r: Seq<u8>)
    ensures
        replace_bytes(h, n, r).1 <= h.len(),
    decreases h.len(),
{
    let k = byte_find(h, n);
    if n.len() > 0 && k >= 0 {
        lemma_byte_find(h, n);
        lemma_replace_count_bound(h.subrange(k + n.len(), h.len() as int), n, r);
    }
}

/// The path, text to find and replacement that `file_edit` was given, once
/// checked: none missing and a non-empty text to find.
pub open spec fn edit_args(args: JsonValue) -> Result<(Seq<char>, Seq<char>, Seq<char>), Seq<char>> {
    match (str_arg(args, "path"@), str_arg(args, "find"@), str_arg(args, "replace"@)) {
        (None, _, _) => Err("Missing 'path' parameter"@),
        (Some(_), None, _) => Err("Missing 'find' parameter"@),
        (Some(_), Some(_), None) => Err("Missing 'replace' parameter"@),
        (Some(p), Some(f), Some(r)) => if f.len() == 0 {
            Err("'find' parameter cannot be empty"@)
        } else {
            Ok((p, f, r))
        },
    }
}

/// What `file_edit` is asked to do.
#[derive(Debug)]
pub struct EditRequest {
    /// The file to edit.
    pub path: String,
    /// The text to find.
    pub find: String,
    /// Its replacement.
    pub replace: String,
}

/// Checks the arguments of `file_edit`.
pub fn file_edit_request(args: &JsonValue) -> (r: Result<EditRequest, HeliosError>)
    ensures
        match edit_args(*args) {
            Ok(t) => r matches Ok(q) && q.path@ == t.0 && q.find@ == t.1 && q.replace@ == t.2,
            Err(m) => is_tool_error(r, m),
        },
{
    let path = match args.str_member("path") {
        Some(p) => p,
        None => {
            return Err(HeliosError::ToolError(owned("Missing 'path' parameter")));
        },
    };
    let find = match args.str_member("find") {
        Some(f) => f,
        None => {
            return Err(HeliosError::ToolError(owned("Missing 'find' parameter")));
        },
    };
    let replace = match args.str_member("replace") {
        Some(r) => r,
        None => {
            return Err(HeliosError::ToolError(owned("Missing 'replace' parameter")));
        },
    };
    if find.is_empty() {
        return Err(HeliosError::ToolError(owned("'find' parameter cannot be empty")));
    }
    Ok(EditRequest { path: owned(path), find: owned(find), replace: owned(replace) })
}

/// The steps of an edit that can fail.
#[derive(Debug, Clone, Copy, PartialEq, Eq, Structural)]
pub enum EditStep {
    /// The path has no parent directory or no file name.
    TargetPath,
    /// The clock could not be read.
    Clock,
    /// The file could not be opened.
    Open,
    /// The temporary file could not be created.
    CreateTemp,
    /// Reading or writing failed while replacing.
    Replace,
    /// The temporary file could not be flushed.
    Flush,
    /// The temporary file could not be synced.
    Sync,
    /// The file's permissions could not be copied.
    Permissions,
    /// The temporary file could not take the file's place.
    Rename,
}

/// The message for a failure of `step`, with `detail` the system's message (for
/// `TargetPath`, the path; for `CreateTemp`, the temporary path, `: `, and the message).
pub open spec fn edit_failure_text(step: EditStep, detail: Seq<char>) -> Seq<char> {
    match step {
        EditStep::TargetPath => "Invalid target path: "@ + detail,
        EditStep::Clock => "Clock error: "@ + detail,
        EditStep::Open => "Failed to open file for read: "@ + detail,
        EditStep::CreateTemp => "Failed to create temp file "@ + detail,
        EditStep::Replace => "I/O error while replacing: "@ + detail,
        EditStep::Flush => "Failed to flush temp file: "@ + detail,
        EditStep::Sync => "Failed to sync temp file: "@ + detail,
        EditStep::Permissions => "Failed to set permissions: "@ + detail,
        EditStep::Rename => "Failed to replace original file: "@ + detail,
    }
}

/// The error of `file_edit` when `step` fails.
pub fn edit_failure(step: EditStep, detail: &str) -> (e: HeliosError)
    ensures
        e matches HeliosError::ToolError(m) && m@ == edit_failure_text(step, detail@),
{
    let mut m = String::new();
    match step {
        EditStep::TargetPath => push_str(&mut m, "Invalid target path: "),
        EditStep::Clock => push_str(&mut m, "Clock error: "),
        EditStep::Open => push_str(&mut m, "Failed to open file for read: "),
        EditStep::CreateTemp => push_str(&mut m, "Failed to create temp file "),
        EditStep::Replace => push_str(&mut m, "I/O error while replacing: "),
        EditStep::Flush => push_str(&mut m, "Failed to flush temp file: "),
        EditStep::Sync => push_str(&mut m, "Failed to sync temp file: "),
        EditStep::Permissions => push_str(&mut m, "Failed to set permissions: "),
        EditStep::Rename => push_str(&mut m, "Failed to replace original file: "),
    }
    push_str(&mut m, detail);
    HeliosError::ToolError(m)
}

/// The name of the temporary file beside `file_name`: `<name>.tmp.<pid>.<nanos>`.
pub fn temp_file_name(file_name: &str, pid: u32, nanos: u64) -> (s: String)
    ensures
        s@ == file_name@ + ".tmp."@ + decimal(pid as nat) + "."@ + decimal(nanos as nat),
{
    let mut s = String::new();
    push_str(&mut s, file_name);
    push_str(&mut s, ".tmp.");
    push_str(&mut s, u64_to_string(pid as u64).as_str());
    push_str(&mut s, ".");
    push_str(&mut s, u64_to_string(nanos).as_str());
    s
}

/// The answer of `file_edit` once the file was rewritten with `count` occurrences
/// replaced: a failed result when there were none.
pub fn file_edit_report(req: &EditRequest, count: usize) -> (r: Result<ToolResult, HeliosError>)
    ensures
        count == 0 ==> tool_failed(r, "Text '"@ + req.find@ + "' not found in file "@ + req.path@),
        count > 0 ==> tool_ok(r, "Successfully replaced "@ + decimal(count as nat) + " occurrence(s) in "@ + req.path@),
{
    let mut m = String::new();
    if count == 0 {
        push_str(&mut m, "Text '");
        push_str(&mut m, req.find.as_str());
        push_str(&mut m, "' not found in file ");
        push_str(&mut m, req.path.as_str());
        return Ok(ToolResult::error(m.as_str()));
    }
    push_str(&mut m, "Successfully replaced ");
    push_str(&mut m, usize_to_string(count).as_str());
    push_str(&mut m, " occurrence(s) in ");
    push_str(&mut m, req.path.as_str());
    Ok(ToolResult::success(m.as_str()))
}

/// The lines `start..end` (1-based, inclusive) that `file_read` shows of a file
/// whose lines are `ls`: `None` where slicing would panic (the first line past
/// the last); `Some(Err(text))` when the first line is past the end of the file.
pub open spec fn read_lines_answer(path: Seq<char>, ls: Seq<Seq<char>>, start: u64, end: u64) -> Option<Result<Seq<char>, Seq<char>>> {
    let s = start as usize;
    let e = end as usize;
    let start_idx: int = if s >= 1 { s - 1 } else { 0 };
    let end_idx: int = if e < ls.len() { e as int } else { ls.len() as int };
    if start_idx >= ls.len() {
        Some(Err("Start line "@ + decimal(s as nat) + " is beyond file length ("@ + decimal(ls.len()) + ")"@))
    } else if start_idx > end_idx {
        None
    } else {
        Some(Ok("File: "@ + path + " (lines "@ + decimal(s as nat) + "-"@ + decimal(end_idx as nat) + "):\n\n"@
            + crate::text::join(ls.subrange(start_idx, end_idx), "\n"@)))
    }
}

/// Whether `r` answers as `a` says, `Ok` as success and `Err` as a tool error,
/// and `None` as no answer.
pub open spec fn answers_opt(r: Option<Result<ToolResult, HeliosError>>, a: Option<Result<Seq<char>, Seq<char>>>) -> bool {
    match a {
        None => r is None,
        Some(Ok(t)) => r matches Some(x) && tool_ok(x, t),
        Some(Err(m)) => r matches Some(x) && is_tool_error(x, m),
    }
}

/// The path that `file_read` reads.
pub fn file_read_path(args: &JsonValue) -> (r: Result<String, HeliosError>)
    ensures
        match str_arg(*args, "path"@) {
            Some(p) => r matches Ok(s) && s@ == p,
            None => is_tool_error(r, "Missing 'path' parameter"@),
        },
{
    match args.str_member("path") {
        Some(p) => Ok(owned(p)),
        None => Err(HeliosError::ToolError(owned("Missing 'path' parameter"))),
    }
}

/// What `file_read` answers for the file at `path` once read (`content`, or the
/// system's message): the whole file, or the lines asked for when both
/// `start_line` and `end_line` are given. `None` where the line range ends before it starts, which cannot be sliced.
pub fn file_read_report(args: &JsonValue, path: &str, content: Result<String, String>) -> (r: Option<Result<ToolResult, HeliosError>>)
    ensures
        match content {
            Err(e) => answers_opt(r, Some(Err("Failed to read file: "@ + e@))),
            Ok(c) => match (u64_arg(*args, "start_line"@), u64_arg(*args, "end_line"@)) {
                (Some(s), Some(e)) => answers_opt(r, read_lines_answer(path@, crate::text::lines(c@), s, e)),
                _ => answers_opt(r, Some(Ok("File: "@ + path@ + ":\n\n"@ + c@))),
            },
        },
{
    let c = match content {
        Err(e) => {
            let mut m = String::new();
            push_str(&mut m, "Failed to read file: ");
            push_str(&mut m, e.as_str());
            return Some(Err(HeliosError::ToolError(m)));
        },
        Ok(c) => c,
    };
    match (args.u64_member("start_line"), args.u64_member("end_line")) {
        (Some(s64), Some(e64)) => {
            let s = s64 as usize;
            let e = e64 as usize;
            let ls = crate::text::str_lines(c.as_str());
            let ghost lv = ls@.map_values(|l: String| l@);
            let start_idx: usize = if s >= 1 { s - 1 } else { 0 };
            let end_idx: usize = if e < ls.len() { e } else { ls.len() };
            if start_idx >= ls.len() {
                let mut m = String::new();
                push_str(&mut m, "Start line ");
                push_str(&mut m, usize_to_string(s).as_str());
                push_str(&mut m, " is beyond file length (");
                push_str(&mut m, usize_to_string(ls.len()).as_str());
                push_str(&mut m, ")");
                return Some(Err(HeliosError::ToolError(m)));
            }
            if start_idx > end_idx {
                return None;
            }
            let mut sel: Vec<String> = Vec::new();
            let mut i = start_idx;
            while i < end_idx
                invariant
                    start_idx <= i <= end_idx <= ls@.len(),
                    lv == ls@.map_values(|l: String| l@),
                    sel@.map_values(|l: String| l@) == lv.subrange(start_idx as int, i as int),
                decreases end_idx - i,
            {
                sel.push(ls[i].clone());
                assert(sel@.map_values(|l: String| l@) =~= lv.subrange(start_idx as int, i + 1));
                i = i + 1;
            }
            let mut out = String::new();
            push_str(&mut out, "File: ");
            push_str(&mut out, path);
            push_str(&mut out, " (lines ");
            push_str(&mut out, usize_to_string(s).as_str());
            push_str(&mut out, "-");
            push_str(&mut out, usize_to_string(end_idx).as_str());
            push_str(&mut out, "):\n\n");
            push_str(&mut out, crate::text::join_strings(&sel, "\n").as_str());
            Some(Ok(ToolResult::success(out.as_str())))
        },
        _ => {
            let mut out = String::new();
            push_str(&mut out, "File: ");
            push_str(&mut out, path);
            push_str(&mut out, ":\n\n");
            push_str(&mut out, c.as_str());
            Some(Ok(ToolResult::success(out.as_str())))
        },
    }
}

/// What a write to disk came to: the parent directories could not be created,
/// the file could not be written, or it was written.
#[derive(Debug)]
pub enum WriteOutcome {
    /// Creating the parent directories failed with this message.
    DirsFailed(String),
    /// Writing failed with this message.
    WriteFailed(String),
    /// The file was written.
    Written,
}

/// The path and content that `file_write` was given.
pub fn file_write_request(args: &JsonValue) -> (r: Result<(String, String), HeliosError>)
    ensures
        match (str_arg(*args, "path"@), str_arg(*args, "content"@)) {
            (None, _) => is_tool_error(r, "Missing 'path' parameter"@),
            (Some(_), None) => is_tool_error(r, "Missing 'content' parameter"@),
            (Some(p), Some(c)) => r matches Ok(pc) && pc.0@ == p && pc.1@ == c,
        },
{
    let p = match args.str_member("path") {
        Some(p) => p,
        None => {
            return Err(HeliosError::ToolError(owned("Missing 'path' parameter")));
        },
    };
    let c = match args.str_member("content") {
        Some(c) => c,
        None => {
            return Err(HeliosError::ToolError(owned("Missing 'content' parameter")));
        },
    };
    Ok((owned(p), owned(c)))
}

fn write_failure(o: &WriteOutcome) -> (r: Option<HeliosError>)
    ensures
        match *o {
            WriteOutcome::DirsFailed(e) => r matches Some(HeliosError::ToolError(m)) && m@ == "Failed to create directories: "@ + e@,
            WriteOutcome::WriteFailed(e) => r matches Some(HeliosError::ToolError(m)) && m@ == "Failed to write file: "@ + e@,
            WriteOutcome::Written => r is None,
        },
{
    match o {
        WriteOutcome::DirsFailed(e) => {
            let mut m = String::new();
            push_str(&mut m, "Failed to create directories: ");
            push_str(&mut m, e.as_str());
            Some(HeliosError::ToolError(m))
        },
        WriteOutcome::WriteFailed(e) => {
            let mut m = String::new();
            push_str(&mut m, "Failed to write file: ");
            push_str(&mut m, e.as_str());
            Some(HeliosError::ToolError(m))
        },
        WriteOutcome::Written => None,
    }
}

/// What `file_write` answers once `content` was written to `path` (or not).
pub fn file_write_report(path: &str, content: &str, o: WriteOutcome) -> (r: Result<ToolResult, HeliosError>)
    ensures
        match o {
            WriteOutcome::DirsFailed(e) => is_tool_error(r, "Failed to create directories: "@ + e@),
            WriteOutcome::WriteFailed(e) => is_tool_error(r, "Failed to write file: "@ + e@),
            WriteOutcome::Written => tool_ok(r, "Successfully wrote "@ + decimal(utf8_len(content@)) + " bytes to "@ + path@),
        },
{
    match write_failure(&o) {
        Some(e) => Err(e),
        None => {
            let mut m = String::new();
            push_str(&mut m, "Successfully wrote ");
            push_str(&mut m, usize_to_string(byte_len(content)).as_str());
            push_str(&mut m, " bytes to ");
            push_str(&mut m, path);
            Ok(ToolResult::success(m.as_str()))
        },
    }
}

/// An operation of `file_io`, with its arguments.
#[derive(Debug)]
pub enum FileIoRequest {
    /// Read a file.
    Read { path: String },
    /// Write a file, creating its directories.
    Write { path: String, content: String },
    /// Append to a file, creating it.
    Append { path: String, content: String },
    /// Delete a file or a directory tree.
    Delete { path: String },
    /// Copy a file.
    Copy { src: String, dst: String },
    /// Move a file.
    Move { src: String, dst: String },
    /// Tell whether a path exists and what it is.
    Exists { path: String },
    /// Tell a file's size.
    Size { path: String },
}

/// The request that `file_io` arguments make, or why they make none.
pub open spec fn file_io_args(args: JsonValue) -> Result<(Seq<char>, Seq<char>, Seq<char>), Seq<char>> {
    let path = str_arg(args, "path"@);
    let src = str_arg(args, "src_path"@);
    let dst = str_arg(args, "dst_path"@);
    let content = str_arg(args, "content"@);
    match str_arg(args, "operation"@) {
        None => Err("Missing 'operation' parameter"@),
        Some(op) => if op == "read"@ || op == "delete"@ || op == "exists"@ || op == "size"@ {
            match path {
                None => Err("Missing 'path' parameter for "@ + op + " operation"@),
                Some(p) => Ok((op, p, Seq::empty())),
            }
        } else if op == "write"@ || op == "append"@ {
            match (path, content) {
                (None, _) => Err("Missing 'path' parameter for "@ + op + " operation"@),
                (Some(_), None) => Err("Missing 'content' parameter for "@ + op + " operation"@),
                (Some(p), Some(c)) => Ok((op, p, c)),
            }
        } else if op == "copy"@ || op == "move"@ {
            match (src, dst) {
                (None, _) => Err("Missing 'src_path' parameter for "@ + op + " operation"@),
                (Some(_), None) => Err("Missing 'dst_path' parameter for "@ + op + " operation"@),
                (Some(s), Some(d)) => Ok((op, s, d)),
            }
        } else {
            Err("Unknown operation '"@ + op + "'. Valid operations: read, write, append, delete, copy, move, exists, size"@)
        },
    }
}

/// Whether `q` is the request of operation `op` with the given two texts (the
/// path and content, or the source and destination).
pub open spec fn is_io_request(q: FileIoRequest, op: Seq<char>, a: Seq<char>, b: Seq<char>) -> bool {
    match q {
        FileIoRequest::Read { path } => op == "read"@ && path@ == a,
        FileIoRequest::Write { path, content } => op == "write"@ && path@ == a && content@ == b,
        FileIoRequest::Append { path, content } => op == "append"@ && path@ == a && content@ == b,
        FileIoRequest::Delete { path } => op == "delete"@ && path@ == a,
        FileIoRequest::Copy { src, dst } => op == "copy"@ && src@ == a && dst@ == b,
        FileIoRequest::Move { src, dst } => op == "move"@ && src@ == a && dst@ == b,
        FileIoRequest::Exists { path } => op == "exists"@ && path@ == a,
        FileIoRequest::Size { path } => op == "size"@ && path@ == a,
    }
}

fn missing_for(prefix: &str, op: &str) -> (e: HeliosError)
    ensures
        e matches HeliosError::ToolError(m) && m@ == prefix@ + op@ + " operation"@,
{
    let mut m = String::new();
    push_str(&mut m, prefix);
    push_str(&mut m, op);
    push_str(&mut m, " operation");
    HeliosError::ToolError(m)
}

/// Reads the arguments of `file_io` into a request.
pub fn file_io_request(args: &JsonValue) -> (r: Result<FileIoRequest, HeliosError>)
    ensures
        match file_io_args(*args) {
            Ok(t) => r matches Ok(q) && is_io_request(q, t.0, t.1, t.2),
            Err(m) => is_tool_error(r, m),
        },
{
    let op = match args.str_member("operation") {
        Some(o) => o,
        None => {
            return Err(HeliosError::ToolError(owned("Missing 'operation' parameter")));
        },
    };
    proof {
        reveal_strlit("read");
        reveal_strlit("write");
        reveal_strlit("append");
        reveal_strlit("delete");
        reveal_strlit("copy");
        reveal_strlit("move");
        reveal_strlit("exists");
        reveal_strlit("size");
    }
    let path = args.str_member("path");
    if str_eq(op, "read") || str_eq(op, "delete") || str_eq(op, "exists") || str_eq(op, "size") {
        let p = match path {
            Some(p) => owned(p),
            None => {
                return Err(missing_for("Missing 'path' parameter for ", op));
            },
        };
        if str_eq(op, "read") {
            return Ok(FileIoRequest::Read { path: p });
        } else if str_eq(op, "delete") {
            return Ok(FileIoRequest::Delete { path: p });
        } else if str_eq(op, "exists") {
            return Ok(FileIoRequest::Exists { path: p });
        } else {
            return Ok(FileIoRequest::Size { path: p });
        }
    }
    if str_eq(op, "write") || str_eq(op, "append") {
        let p = match path {
            Some(p) => owned(p),
            None => {
                return Err(missing_for("Missing 'path' parameter for ", op));
            },
        };
        let c = match args.str_member("content") {
            Some(c) => owned(c),
            None => {
                return Err(missing_for("Missing 'content' parameter for ", op));
            },
        };
        if str_eq(op, "write") {
            return Ok(FileIoRequest::Write { path: p, content: c });
        } else {
            return Ok(FileIoRequest::Append { path: p, content: c });
        }
    }
    if str_eq(op, "copy") || str_eq(op, "move") {
        let s = match args.str_member("src_path") {
            Some(s) => owned(s),
            None => {
                return Err(missing_for("Missing 'src_path' parameter for ", op));
            },
        };
        let d = match args.str_member("dst_path") {
            Some(d) => owned(d),
            None => {
                return Err(missing_for("Missing 'dst_path' parameter for ", op));
            },
        };
        if str_eq(op, "copy") {
            return Ok(FileIoRequest::Copy { src: s, dst: d });
        } else {
            return Ok(FileIoRequest::Move { src: s, dst: d });
        }
    }
    let mut m = String::new();
    push_str(&mut m, "Unknown operation '");
    push_str(&mut m, op);
    push_str(&mut m, "'. Valid operations: read, write, append, delete, copy, move, exists, size");
    Err(HeliosError::ToolError(m))
}

/// A step of `file_io` that can fail.
#[derive(Debug, Clone, Copy, PartialEq, Eq, Structural)]
pub enum IoStep {
    /// Reading the file.
    Read,
    /// Creating the parent directories.
    CreateDirs,
    /// Writing the file.
    Write,
    /// Appending to the file.
    Append,
    /// Reading the path's metadata.
    Access,
    /// Deleting a file.
    DeleteFile,
    /// Deleting a directory tree.
    DeleteDir,
    /// Copying.
    Copy,
    /// Moving.
    Move,
}

/// What the file system gave for a `file_io` request.
#[derive(Debug)]
pub enum IoOutcome {
    /// The file's text.
    Text(String),
    /// The step failed with this message.
    Failed(IoStep, String),
    /// The operation was done; for a deletion, whether the path was a file.
    Done(bool),
    /// Whether the path exists and is a file.
    Probed(bool, bool),
    /// The size in bytes.
    Sized(u64),
}

/// The message for a failure at `step`.
pub open spec fn io_failure_text(step: IoStep, e: Seq<char>) -> Seq<char> {
    match step {
        IoStep::Read => "Failed to read file: "@ + e,
        IoStep::CreateDirs => "Failed to create directories: "@ + e,
        IoStep::Write => "Failed to write file: "@ + e,
        IoStep::Append => "Failed to append to file: "@ + e,
        IoStep::Access => "Cannot access file: "@ + e,
        IoStep::DeleteFile => "Failed to delete file: "@ + e,
        IoStep::DeleteDir => "Failed to delete directory: "@ + e,
        IoStep::Copy => "Failed to copy file: "@ + e,
        IoStep::Move => "Failed to move file: "@ + e,
    }
}

/// What `file_io` answers for request `q` given what the file system gave:
/// `Ok(text)` for success, `Err(text)` for a tool error; an outcome of the
/// wrong kind for the request is reported as a read of nothing.
pub open spec fn file_io_answer(q: FileIoRequest, o: IoOutcome) -> Result<Seq<char>, Seq<char>> {
    match o {
        IoOutcome::Failed(step, e) => Err(io_failure_text(step, e@)),
        _ => match q {
            FileIoRequest::Read { path } => {
                let c = match o {
                    IoOutcome::Text(c) => c@,
                    _ => Seq::empty(),
                };
                Ok("File: "@ + path@ + "\nSize: "@ + decimal(utf8_len(c)) + " bytes\n\n"@ + c)
            },
            FileIoRequest::Write { path, content } => Ok("\u{2713} Wrote "@ + decimal(utf8_len(content@)) + " bytes to "@ + path@),
            FileIoRequest::Append { path, content } => Ok("\u{2713} Appended "@ + decimal(utf8_len(content@)) + " bytes to "@ + path@),
            FileIoRequest::Delete { path } => Ok("\u{2713} Deleted "@ + (if o matches IoOutcome::Done(true) {
                "file"@
            } else {
                "directory"@
            }) + ": "@ + path@),
            FileIoRequest::Copy { src, dst } => Ok("\u{2713} Copied "@ + src@ + " to "@ + dst@),
            FileIoRequest::Move { src, dst } => Ok("\u{2713} Moved "@ + src@ + " to "@ + dst@),
            FileIoRequest::Exists { path } => {
                let (exists, is_file) = match o {
                    IoOutcome::Probed(e, f) => (e, f),
                    _ => (false, false),
                };
                Ok("Path '"@ + path@ + "' exists: "@ + (if exists { "true"@ } else { "false"@ }) + " ("@ + (if !exists {
                    "nonexistent"@
                } else if is_file {
                    "file"@
                } else {
                    "directory"@
                }) + ")"@)
            },
            FileIoRequest::Size { path } => {
                let n = match o {
                    IoOutcome::Sized(n) => n,
                    _ => 0,
                };
                Ok("Size of '"@ + path@ + "': "@ + decimal(n as nat) + " bytes"@)
            },
        },
    }
}

/// What `file_io` answers for request `q` given what the file system gave.
pub fn file_io_report(q: &FileIoRequest, o: IoOutcome) -> (r: Result<ToolResult, HeliosError>)
    ensures
        match file_io_answer(*q, o) {
            Ok(t) => tool_ok(r, t),
            Err(m) => is_tool_error(r, m),
        },
{
    let mut out = String::new();
    match o {
        IoOutcome::Failed(step, e) => {
            match step {
                IoStep::Read => push_str(&mut out, "Failed to read file: "),
                IoStep::CreateDirs => push_str(&mut out, "Failed to create directories: "),
                IoStep::Write => push_str(&mut out, "Failed to write file: "),
                IoStep::Append => push_str(&mut out, "Failed to append to file: "),
                IoStep::Access => push_str(&mut out, "Cannot access file: "),
                IoStep::DeleteFile => push_str(&mut out, "Failed to delete file: "),
                IoStep::DeleteDir => push_str(&mut out, "Failed to delete directory: "),
                IoStep::Copy => push_str(&mut out, "Failed to copy file: "),
                IoStep::Move => push_str(&mut out, "Failed to move file: "),
            }
            push_str(&mut out, e.as_str());
            return Err(HeliosError::ToolError(out));
        },
        _ => {},
    }
    match q {
        FileIoRequest::Read { path } => {
            let c = match &o {
                IoOutcome::Text(c) => c.as_str(),
                _ => "",
            };
            proof {
                reveal_strlit("");
                assert(""@ =~= Seq::<char>::empty());
            }
            push_str(&mut out, "File: ");
            push_str(&mut out, path.as_str());
            push_str(&mut out, "\nSize: ");
            push_str(&mut out, usize_to_string(byte_len(c)).as_str());
            push_str(&mut out, " bytes\n\n");
            push_str(&mut out, c);
        },
        FileIoRequest::Write { path, content } => {
            push_str(&mut out, "\u{2713} Wrote ");
            push_str(&mut out, usize_to_string(byte_len(content.as_str())).as_str());
            push_str(&mut out, " bytes to ");
            push_str(&mut out, path.as_str());
        },
        FileIoRequest::Append { path, content } => {
            push_str(&mut out, "\u{2713} Appended ");
            push_str(&mut out, usize_to_string(byte_len(content.as_str())).as_str());
            push_str(&mut out, " bytes to ");
            push_str(&mut out, path.as_str());
        },
        FileIoRequest::Delete { path } => {
            push_str(&mut out, "\u{2713} Deleted ");
            match o {
                IoOutcome::Done(true) => push_str(&mut out, "file"),
                _ => push_str(&mut out, "directory"),
            }
            push_str(&mut out, ": ");
            push_str(&mut out, path.as_str());
        },
        FileIoRequest::Copy { src, dst } => {
            push_str(&mut out, "\u{2713} Copied ");
            push_str(&mut out, src.as_str());
            push_str(&mut out, " to ");
            push_str(&mut out, dst.as_str());
        },
        FileIoRequest::Move { src, dst } => {
            push_str(&mut out, "\u{2713} Moved ");
            push_str(&mut out, src.as_str());
            push_str(&mut out, " to ");
            push_str(&mut out, dst.as_str());
        },
        FileIoRequest::Exists { path } => {
            let (exists, is_file) = match o {
                IoOutcome::Probed(e, f) => (e, f),
                _ => (false, false),
            };
            push_str(&mut out, "Path '");
            push_str(&mut out, path.as_str());
            push_str(&mut out, "' exists: ");
            if exists {
                push_str(&mut out, "true");
            } else {
                push_str(&mut out, "false");
            }
            push_str(&mut out, " (");
            if !exists {
                push_str(&mut out, "nonexistent");
            } else if is_file {
                push_str(&mut out, "file");
            } else {
                push_str(&mut out, "directory");
            }
            push_str(&mut out, ")");
        },
        FileIoRequest::Size { path } => {
            let n = match o {
                IoOutcome::Sized(n) => n,
                _ => 0,
            };
            push_str(&mut out, "Size of '");
            push_str(&mut out, path.as_str());
            push_str(&mut out, "': ");
            push_str(&mut out, u64_to_string(n).as_str());
            push_str(&mut out, " bytes");
        },
    }
    Ok(ToolResult::success(out.as_str()))
}

/// The regular expression that a file-name pattern becomes: `.` is taken
/// literally, `*` matches any run and `?` any one character, anchored at both ends.
pub open spec fn glob_regex(pat: Seq<char>) -> Seq<char> {
    "^"@ + replace_text(replace_text(replace_text(pat, "."@, "\\."@), "*"@, ".*"@), "?"@, "."@) + "$"@
}

/// Whether a name is passed over by `file_search`: hidden, or a build or
/// dependency directory.
pub open spec fn search_skips(name: Seq<char>) -> bool {
    starts_with(name, "."@) || name == "target"@ || name == "node_modules"@ || name == "__pycache__"@
}

/// The lines of `ls`, from position `from` on, that contain `term`, with their
/// positions.
pub open spec fn lines_with(ls: Seq<Seq<char>>, term: Seq<char>) -> Seq<(nat, Seq<char>)>
    decreases ls.len(),
{
    if ls.len() == 0 {
        Seq::empty()
    } else {
        let rest = lines_with(ls.drop_last(), term);
        if contains(ls.last(), term) {
            rest.push(((ls.len() - 1) as nat, ls.last()))
        } else {
            rest
        }
    }
}

/// What `file_search` records for a file containing `term`: a heading with the
/// number of matching lines shown, then up to three of them, trimmed.
pub open spec fn content_hits(display: Seq<char>, text: Seq<char>, term: Seq<char>) -> Seq<Seq<char>> {
    let found = lines_with(lines(text), term);
    let shown = if found.len() > 3 { found.take(3) } else { found };
    if !contains(text, term) || shown.len() == 0 {
        Seq::empty()
    } else {
        seq!["\u{1F4C4} "@ + display + " (found in "@ + decimal(shown.len()) + " lines)"@] + Seq::new(
            shown.len(),
            |i: int| "  Line "@ + decimal(shown[i].0 + 1) + ": "@ + trim(shown[i].1),
        )
    }
}

/// A file search under way: what it looks for and what it has found.
pub struct FileSearch {
    /// The directory searched.
    pub base: String,
    /// The file-name pattern, if any.
    pub pattern: Option<String>,
    /// The text looked for inside files, if any.
    pub content: Option<String>,
    /// How many results are enough.
    pub max_results: usize,
    /// The pattern compiled, when it compiles.
    pub matcher: Option<CompiledRegex>,
    /// The results so far.
    pub results: Vec<String>,
}

impl FileSearch {
    /// Whether the pattern compiled, as `glob_regex` of it.
    pub open spec fn compiled(&self) -> bool {
        self.matcher is Some
    }

    /// Whether the compiled pattern is the file-name pattern as `glob_regex`.
    pub open spec fn search_wf(&self) -> bool {
        match self.matcher {
            Some(m) => self.pattern matches Some(p) && m.source() == glob_regex(p@) && !m.ignores_case(),
            None => true,
        }
    }

    /// Whether `name` matches the search's file-name pattern: by the compiled
    /// pattern when it compiled, else as a substring.
    pub open spec fn name_matches(&self, name: Seq<char>) -> bool {
        match self.pattern {
            Some(p) => if self.compiled() {
                regex_is_match(glob_regex(p@), false, name)
            } else {
                contains(name, p@)
            },
            None => false,
        }
    }

    /// Starts a search from the arguments: the directory `path` (the current one
    /// by default), a file-name `pattern` and/or a `content` to look for, at most
    /// `max_results` (50 by default). One of the two is required.
    pub fn start(args: &JsonValue) -> (r: Result<FileSearch, HeliosError>)
        ensures
            match (str_arg(*args, "pattern"@), str_arg(*args, "content"@)) {
                (None, None) => is_tool_error(r, "Either 'pattern' or 'content' parameter is required"@),
                (p, c) => r matches Ok(s) && {
                    &&& s.base@ == (match str_arg(*args, "path"@) {
                        Some(b) => b,
                        None => "."@,
                    })
                    &&& (match (s.pattern, p) {
                        (Some(a), Some(b)) => a@ == b,
                        (None, None) => true,
                        _ => false,
                    })
                    &&& (match (s.content, c) {
                        (Some(a), Some(b)) => a@ == b,
                        (None, None) => true,
                        _ => false,
                    })
                    &&& s.max_results == (match u64_arg(*args, "max_results"@) {
                        Some(n) => n as usize,
                        None => 50usize,
                    })
                    &&& (p matches Some(pp) ==> s.compiled() == (regex_compile_error(glob_regex(pp), false) is None))
                    &&& s.results@.len() == 0
                    &&& s.search_wf()
                },
            },
    {
        let base = match args.str_member("path") {
            Some(b) => owned(b),
            None => owned("."),
        };
        let pattern = args.str_member("pattern");
        let content = args.str_member("content");
        let max_results: usize = match args.u64_member("max_results") {
            Some(n) => n as usize,
            None => 50,
        };
        if pattern.is_none() && content.is_none() {
            return Err(HeliosError::ToolError(owned("Either 'pattern' or 'content' parameter is required")));
        }
        let (pat, matcher) = match pattern {
            Some(p) => {
                proof {
                    reveal_strlit(".");
                    reveal_strlit("*");
                    reveal_strlit("?");
                }
                let a = str_replace(p, ".", "\\.");
                let b = str_replace(a.as_str(), "*", ".*");
                let c = str_replace(b.as_str(), "?", ".");
                let mut re = String::new();
                push_str(&mut re, "^");
                push_str(&mut re, c.as_str());
                push_str(&mut re, "$");
                let m = match compile_regex(re.as_str(), false) {
                    Ok(m) => Some(m),
                    Err(_) => None,
                };
                (Some(owned(p)), m)
            },
            None => (None, None),
        };
        let c = match content {
            Some(c) => Some(owned(c)),
            None => None,
        };
        Ok(FileSearch { base, pattern: pat, content: c, max_results, matcher, results: Vec::new() })
    }

    /// Whether the search wants another directory entry: it has fewer results
    /// than it needs.
    pub fn wants_entry(&self) -> (b: bool)
        ensures
            b == (self.results@.len() < self.max_results),
    {
        self.results.len() < self.max_results
    }

    /// Takes the next entry of the walk: `display` its path as shown, `name` its
    /// file name when it has one, `is_file` whether it is a file. A skipped name
    /// records nothing; a file whose name matches the pattern is recorded.
    /// Returns whether the file's text is wanted for the content search.
    pub fn on_entry(&mut self, display: &str, name: Option<&str>, is_file: bool) -> (wants_text: bool)
        requires
            old(self).search_wf(),
        ensures
            final(self).search_wf(),
            final(self).matcher == old(self).matcher,
            final(self).base == old(self).base,
            final(self).pattern == old(self).pattern,
            final(self).content == old(self).content,
            final(self).max_results == old(self).max_results,
            final(self).compiled() == old(self).compiled(),
            match name {
                Some(n) => if search_skips(n@) {
                    !wants_text && final(self).results@ == old(self).results@
                } else {
                    &&& wants_text == (old(self).content is Some && is_file)
                    &&& final(self).results@.map_values(|s: String| s@) == old(self).results@.map_values(|s: String| s@)
                        + (if is_file && old(self).name_matches(n@) {
                        seq!["\u{1F4C4} "@ + display@]
                    } else {
                        Seq::empty()
                    })
                },
                None => {
                    &&& wants_text == (old(self).content is Some && is_file)
                    &&& final(self).results@ == old(self).results@
                },
            },
    {
        match name {
            Some(n) => {
                let skip = crate::text::str_starts_with(n, ".") || str_eq(n, "target") || str_eq(n, "node_modules")
                    || str_eq(n, "__pycache__");
                if skip {
                    return false;
                }
                if is_file {
                    let hit = match &self.pattern {
                        Some(p) => match &self.matcher {
                            Some(m) => is_match(m, n),
                            None => crate::text::str_contains(n, p.as_str()),
                        },
                        None => false,
                    };
                    if hit {
                        let mut line = String::new();
                        push_str(&mut line, "\u{1F4C4} ");
                        push_str(&mut line, display);
                        let mut results = Vec::new();
                        std::mem::swap(&mut results, &mut self.results);
                        results.push(line);
                        self.results = results;
                        assert(self.results@.map_values(|s: String| s@) =~= old(self).results@.map_values(|s: String| s@)
                            + seq!["\u{1F4C4} "@ + display@]);
                    } else {
                        assert(self.results@.map_values(|s: String| s@) =~= old(self).results@.map_values(|s: String| s@)
                            + Seq::<Seq<char>>::empty());
                    }
                } else {
                    assert(self.results@.map_values(|s: String| s@) =~= old(self).results@.map_values(|s: String| s@)
                        + Seq::<Seq<char>>::empty());
                }
                self.content.is_some() && is_file
            },
            None => self.content.is_some() && is_file,
        }
    }

    /// Takes the text of a file the search asked for: when it contains the
    /// content looked for, the file and up to three of its matching lines are recorded.
    pub fn on_text(&mut self, display: &str, text: &str)
        requires
            old(self).content is Some,
            old(self).search_wf(),
        ensures
            final(self).search_wf(),
            final(self).matcher == old(self).matcher,
            final(self).base == old(self).base,
            final(self).pattern == old(self).pattern,
            final(self).content == old(self).content,
            final(self).max_results == old(self).max_results,
            final(self).compiled() == old(self).compiled(),
            final(self).results@.map_values(|s: String| s@) == old(self).results@.map_values(|s: String| s@)
                + content_hits(display@, text@, old(self).content->Some_0@),
    {
        let term = match &self.content {
            Some(t) => t.as_str(),
            None => "",
        };
        let ghost before = self.results@.map_values(|s: String| s@);
        if !crate::text::str_contains(text, term) {
            assert(self.results@.map_values(|s: String| s@) =~= before + Seq::<Seq<char>>::empty());
            return;
        }
        let ls = crate::text::str_lines(text);
        let ghost lv = ls@.map_values(|l: String| l@);
        let mut shown: Vec<(usize, String)> = Vec::new();
        let mut i: usize = 0;
        while i < ls.len() && shown.len() < 3
            invariant
                i <= ls@.len(),
                lv == ls@.map_values(|l: String| l@),
                shown@.len() <= 3,
                forall|k: int| 0 <= k < shown@.len() ==> #[trigger] shown@[k].0 < i,
                shown@.map_values(|h: (usize, String)| (h.0 as nat, h.1@)) == lines_with(lv.take(i as int), term@),
            decreases ls@.len() - i,
        {
            assert(lv.take(i + 1).drop_last() =~= lv.take(i as int));
            let ghost prev = shown@.map_values(|h: (usize, String)| (h.0 as nat, h.1@));
            if crate::text::str_contains(ls[i].as_str(), term) {
                shown.push((i, ls[i].clone()));
                assert(shown@.map_values(|h: (usize, String)| (h.0 as nat, h.1@)) =~= prev.push((i as nat, lv[i as int])));
            }
            i = i + 1;
        }
        proof {
            lemma_lines_with_prefix(lv, term@, i as int);
        }
        let ghost sv = shown@.map_values(|h: (usize, String)| (h.0 as nat, h.1@));
        if shown.len() == 0 {
            assert(self.results@.map_values(|s: String| s@) =~= before + content_hits(display@, text@, term@));
            return;
        }
        let mut results = Vec::new();
        std::mem::swap(&mut results, &mut self.results);
        let mut head = String::new();
        push_str(&mut head, "\u{1F4C4} ");
        push_str(&mut head, display);
        push_str(&mut head, " (found in ");
        push_str(&mut head, usize_to_string(shown.len()).as_str());
        push_str(&mut head, " lines)");
        results.push(head);
        let mut j: usize = 0;
        while j < shown.len()
            invariant
                j <= shown@.len(),
                sv == shown@.map_values(|h: (usize, String)| (h.0 as nat, h.1@)),
                shown@.len() <= 3,
                forall|k: int| 0 <= k < shown@.len() ==> #[trigger] shown@[k].0 < ls@.len(),
                results@.len() == before.len() + 1 + j,
                forall|k: int| 0 <= k < before.len() + 1 ==> #[trigger] results@[k]@ == (before + seq!["\u{1F4C4} "@ + display@ + " (found in "@ + decimal(sv.len()) + " lines)"@])[k],
                forall|k: int| 0 <= k < j ==> #[trigger] results@[before.len() + 1 + k]@ == "  Line "@ + decimal(sv[k].0 + 1) + ": "@ + trim(sv[k].1),
            decreases shown@.len() - j,
        {
            let mut l = String::new();
            push_str(&mut l, "  Line ");
            push_str(&mut l, usize_to_string(shown[j].0 + 1).as_str());
            push_str(&mut l, ": ");
            push_str(&mut l, crate::text::str_trim(shown[j].1.as_str()).as_str());
            results.push(l);
            j = j + 1;
        }
        self.results = results;
        proof {
            let hits = content_hits(display@, text@, term@);
            assert(hits.len() == 1 + sv.len());
            assert forall|k: int| 0 <= k < self.results@.len() implies #[trigger] self.results@[k]@ == (before + hits)[k] by {
                if k < before.len() + 1 {
                } else {
                    let q = k - before.len() - 1;
                    assert(self.results@[before.len() + 1 + q]@ == "  Line "@ + decimal(sv[q].0 + 1) + ": "@ + trim(sv[q].1));
                }
            }
            assert(self.results@.map_values(|s: String| s@) =~= before + hits);
        }
    }

    /// The answer of the search: how many results and the results, one a line.
    pub fn report(&self) -> (r: ToolResult)
        ensures
            self.results@.len() == 0 ==> crate::tools::is_success(r, "No files found matching the criteria."@),
            self.results@.len() > 0 ==> crate::tools::is_success(r, "Found "@ + decimal(self.results@.len()) + " result(s):\n\n"@
                + join(self.results@.map_values(|s: String| s@), "\n"@)),
    {
        if self.results.len() == 0 {
            return ToolResult::success("No files found matching the criteria.");
        }
        let mut out = String::new();
        push_str(&mut out, "Found ");
        push_str(&mut out, usize_to_string(self.results.len()).as_str());
        push_str(&mut out, " result(s):\n\n");
        push_str(&mut out, crate::text::join_strings(&self.results, "\n").as_str());
        ToolResult::success(out.as_str())
    }
}

/// Looking at the lines in order and stopping at three found, the lines found
/// are the first three of all that are found.
proof fn lemma_lines_with_prefix(ls: Seq<Seq<char>>, term: Seq<char>, i: int)
    requires
        0 <= i <= ls.len(),
        lines_with(ls.take(i), term).len() <= 3,
        i < ls.len() ==> lines_with(ls.take(i), term).len() == 3,
    ensures
        ({
            let found = lines_with(ls, term);
            lines_with(ls.take(i), term) == (if found.len() > 3 { found.take(3) } else { found })
        }),
    decreases ls.len() - i,
{
    if i == ls.len() {
        assert(ls.take(i) =~= ls);
    } else {
        lemma_lines_with_prefix_grow(ls, term, i, ls.len() as int);
        assert(ls.take(ls.len() as int) =~= ls);
    }
}

/// Extending the lines looked at only adds found lines after those already found.
proof fn lemma_lines_with_prefix_grow(ls: Seq<Seq<char>>, term: Seq<char>, i: int, j: int)
    requires
        0 <= i <= j <= ls.len(),
    ensures
        lines_with(ls.take(j), term).len() >= lines_with(ls.take(i), term).len(),
        lines_with(ls.take(j), term).take(lines_with(ls.take(i), term).len() as int) == lines_with(ls.take(i), term),
    decreases j - i,
{
    if i < j {
        lemma_lines_with_prefix_grow(ls, term, i, j - 1);
        assert(ls.take(j).drop_last() =~= ls.take(j - 1));
        let a = lines_with(ls.take(i), term);
        let b = lines_with(ls.take(j - 1), term);
        let c = lines_with(ls.take(j), term);
        assert(c.take(b.len() as int) =~= b);
        assert(c.take(a.len() as int) =~= b.take(a.len() as int));
    } else {
        assert(lines_with(ls.take(j), term).take(lines_with(ls.take(i), term).len() as int) =~= lines_with(ls.take(i), term));
    }
}

/// What `file_list` is asked for: the directory, whether to show hidden
/// entries, whether to walk subdirectories and how deep.
#[derive(Debug)]
pub struct ListRequest {
    /// The directory listed.
    pub base: String,
    /// Whether names starting with `.` are shown.
    pub show_hidden: bool,
    /// Whether subdirectories are walked.
    pub recursive: bool,
    /// How deep the walk goes.
    pub max_depth: usize,
}

/// Reads the arguments of `file_list`: `path` (the current directory by
/// default), `show_hidden` and `recursive` (off by default), `max_depth` (3).
pub fn file_list_request(args: &JsonValue) -> (q: ListRequest)
    ensures
        q.base@ == (match str_arg(*args, "path"@) {
            Some(b) => b,
            None => "."@,
        }),
        q.show_hidden == (bool_arg(*args, "show_hidden"@) == Some(true)),
        q.recursive == (bool_arg(*args, "recursive"@) == Some(true)),
        q.max_depth == (match u64_arg(*args, "max_depth"@) {
            Some(n) => n as usize,
            None => 3usize,
        }),
{
    let base = match args.str_member("path") {
        Some(b) => owned(b),
        None => owned("."),
    };
    let show_hidden = match args.bool_member("show_hidden") {
        Some(b) => b,
        None => false,
    };
    let recursive = match args.bool_member("recursive") {
        Some(b) => b,
        None => false,
    };
    let max_depth: usize = match args.u64_member("max_depth") {
        Some(n) => n as usize,
        None => 3,
    };
    ListRequest { base, show_hidden, recursive, max_depth }
}

/// What is known of a directory entry: whether it is a directory, its size,
/// and its modification time as local text when it could be read.
#[derive(Debug)]
pub struct EntryMeta {
    /// Whether the entry is a directory.
    pub is_dir: bool,
    /// Its size in bytes.
    pub size: u64,
    /// When it was last modified, as `%Y-%m-%d %H:%M:%S` local time.
    pub modified: Option<String>,
}

/// `format!("{:>8}", n)`: the decimal text of `n` right-aligned in eight columns.
pub open spec fn pad8(n: nat) -> Seq<char> {
    let d = decimal(n);
    if d.len() < 8 {
        Seq::new((8 - d.len()) as nat, |i: int| ' ') + d
    } else {
        d
    }
}

/// The line of a directory entry: its kind in four columns, its size in eight,
/// its modification time and its path.
pub open spec fn entry_line(is_dir: bool, size: u64, modified: Seq<char>, display: Seq<char>) -> Seq<char> {
    (if is_dir { "DIR "@ } else { "FILE"@ }) + " "@ + pad8(size as nat) + " "@ + modified + " "@ + display
}

fn pad8_exec(n: u64) -> (out: String)
    ensures
        out@ == pad8(n as nat),
{
    let d = u64_to_string(n);
    let dc = crate::text::chars_of(d.as_str());
    let mut out = String::new();
    if dc.len() < 8 {
        let mut k: usize = 0;
        while k < 8 - dc.len()
            invariant
                k <= 8 - dc@.len(),
                dc@.len() < 8,
                dc@ == d@,
                out@ == Seq::new(k as nat, |i: int| ' '),
            decreases 8 - dc@.len() - k,
        {
            crate::text::push_char(&mut out, ' ');
            k = k + 1;
            assert(out@ =~= Seq::new(k as nat, |i: int| ' '));
        }
    }
    push_str(&mut out, d.as_str());
    assert(out@ =~= pad8(n as nat));
    out
}

/// The line `file_list` shows for an entry named `name` (when it has a name)
/// with metadata `meta` (when it could be read) and path `display`; none for a
/// nameless or hidden entry (unless hidden ones are shown), or one whose
/// metadata or modification time could not be read.
pub fn entry_listing(show_hidden: bool, name: Option<&str>, meta: Option<EntryMeta>, display: &str) -> (r: Option<String>)
    ensures
        match (name, meta) {
            (Some(n), Some(m)) => if !show_hidden && starts_with(n@, "."@) {
                r is None
            } else {
                match m.modified {
                    Some(t) => r matches Some(l) && l@ == entry_line(m.is_dir, m.size, t@, display@),
                    None => r is None,
                }
            },
            _ => r is None,
        },
{
    let n = match name {
        Some(n) => n,
        None => {
            return None;
        },
    };
    if !show_hidden && crate::text::str_starts_with(n, ".") {
        return None;
    }
    let m = match meta {
        Some(m) => m,
        None => {
            return None;
        },
    };
    let t = match &m.modified {
        Some(t) => t,
        None => {
            return None;
        },
    };
    let mut l = String::new();
    if m.is_dir {
        push_str(&mut l, "DIR ");
    } else {
        push_str(&mut l, "FILE");
    }
    push_str(&mut l, " ");
    push_str(&mut l, pad8_exec(m.size).as_str());
    push_str(&mut l, " ");
    push_str(&mut l, t.as_str());
    push_str(&mut l, " ");
    push_str(&mut l, display);
    Some(l)
}

/// The error when the directory cannot be read.
pub fn list_dir_failure(e: &str) -> (err: HeliosError)
    ensures
        err matches HeliosError::ToolError(m) && m@ == "Failed to read directory: "@ + e@,
{
    let mut m = String::new();
    push_str(&mut m, "Failed to read directory: ");
    push_str(&mut m, e);
    HeliosError::ToolError(m)
}

/// The lines of `ls`, each ended by a newline.
pub open spec fn each_line(ls: Seq<Seq<char>>) -> Seq<char>
    decreases ls.len(),
{
    if ls.len() == 0 {
        Seq::empty()
    } else {
        each_line(ls.drop_last()) + ls.last() + "\n"@
    }
}

/// The listing of `base` with the entry lines `lines`, sorted.
pub fn file_list_report(base: &str, lines: Vec<String>) -> (r: ToolResult)
    ensures
        exists|sorted: Seq<Seq<char>>|
            #![trigger crate::text::lex_sorted(sorted)]
            crate::text::lex_sorted(sorted) && sorted.to_multiset() == lines@.map_values(|s: String| s@).to_multiset()
                && crate::tools::is_success(r, "Directory listing for: "@ + base@ + "\n\nTotal items: "@ + decimal(sorted.len())
                + "\n\n"@ + each_line(sorted)),
{
    broadcast use vstd::seq_lib::group_to_multiset_ensures;
    let sorted = crate::text::sort_strings(lines);
    let ghost sv = sorted@.map_values(|s: String| s@);
    let mut out = String::new();
    push_str(&mut out, "Directory listing for: ");
    push_str(&mut out, base);
    push_str(&mut out, "\n\nTotal items: ");
    push_str(&mut out, usize_to_string(sorted.len()).as_str());
    push_str(&mut out, "\n\n");
    let ghost head = out@;
    let mut i: usize = 0;
    while i < sorted.len()
        invariant
            i <= sorted@.len(),
            sv == sorted@.map_values(|s: String| s@),
            out@ == head + each_line(sv.take(i as int)),
        decreases sorted@.len() - i,
    {
        assert(sv.take(i + 1).drop_last() =~= sv.take(i as int));
        push_str(&mut out, sorted[i].as_str());
        push_str(&mut out, "\n");
        i = i + 1;
        assert(out@ =~= head + each_line(sv.take(i as int)));
    }
    assert(sv.take(sorted@.len() as int) =~= sv);
    let r = ToolResult::success(out.as_str());
    assert(crate::text::lex_sorted(sv) && sv.to_multiset() == lines@.map_values(|s: String| s@).to_multiset()
        && crate::tools::is_success(r, "Directory listing for: "@ + base@ + "\n\nTotal items: "@ + decimal(sv.len())
        + "\n\n"@ + each_line(sv)));
    r
}


/// The bytes of all the chunks, in order.
pub open spec fn joined(chunks: Seq<Seq<u8>>) -> Seq<u8>
    decreases chunks.len(),
{
    if chunks.len() == 0 {
        Seq::empty()
    } else {
        joined(chunks.drop_last()) + chunks.last()
    }
}

/// Where streaming replacement stands after the chunks: what it wrote, how many
/// occurrences it replaced, and the bytes it keeps back.
pub open spec fn stream_state(needle: Seq<u8>, rep: Seq<u8>, chunks: Seq<Seq<u8>>) -> (Seq<u8>, nat, Seq<u8>)
    decreases chunks.len(),
{
    if chunks.len() == 0 {
        (Seq::empty(), 0, Seq::empty())
    } else {
        let (written, count, carry) = stream_state(needle, rep, chunks.drop_last());
        let step = stream_step(carry + chunks.last(), needle, rep);
        (written + step.0, count + step.1, step.2)
    }
}

/// What streaming replacement writes in all, and how many occurrences it
/// replaces, for a stream read as `chunks`.
pub open spec fn streamed(needle: Seq<u8>, rep: Seq<u8>, chunks: Seq<Seq<u8>>) -> (Seq<u8>, nat) {
    let (written, count, carry) = stream_state(needle, rep, chunks);
    let last = replace_bytes(carry, needle, rep);
    (written + last.0, count + last.1)
}

/// Replaces `needle` by `replacement` in a stream read as `chunks`, writing the
/// result to `out` and returning the number of occurrences replaced. It writes
/// exactly what replacing in the whole stream at once writes
/// (`lemma_stream_matches_whole`).
pub fn replace_streaming(chunks: &Vec<Vec<u8>>, needle: &[u8], replacement: &[u8], out: &mut Vec<u8>) -> (count: usize)
    requires
        joined(chunks@.map_values(|c: Vec<u8>| c@)).len() <= usize::MAX,
    ensures
        final(out)@ == old(out)@ + streamed(needle@, replacement@, chunks@.map_values(|c: Vec<u8>| c@)).0,
        count == streamed(needle@, replacement@, chunks@.map_values(|c: Vec<u8>| c@)).1,
{
    let ghost views = chunks@.map_values(|c: Vec<u8>| c@);
    let ghost start = out@;
    let mut nv: Vec<u8> = Vec::new();
    append_bytes(&mut nv, needle, 0, needle.len());
    let mut rv: Vec<u8> = Vec::new();
    append_bytes(&mut rv, replacement, 0, replacement.len());
    assert(needle@.subrange(0, needle@.len() as int) =~= needle@);
    assert(replacement@.subrange(0, replacement@.len() as int) =~= replacement@);
    assert(nv@ =~= needle@);
    assert(rv@ =~= replacement@);
    let mut s = StreamReplace::new(nv, rv);
    let mut i: usize = 0;
    while i < chunks.len()
        invariant
            i <= chunks@.len(),
            views == chunks@.map_values(|c: Vec<u8>| c@),
            joined(views).len() <= usize::MAX,
            s.needle@ == needle@,
            s.replacement@ == replacement@,
            ({
                let st = stream_state(needle@, replacement@, views.take(i as int));
                &&& out@ == start + st.0
                &&& s.replaced == st.1
                &&& s.carry@ == st.2
            }),
            s.replaced + s.carry@.len() <= joined(views.take(i as int)).len(),
        decreases chunks@.len() - i,
    {
        assert(views.take(i + 1).drop_last() =~= views.take(i as int));
        assert(views.take(i + 1).last() == chunks@[i as int]@);
        proof {
            lemma_joined_prefix_bound(views, i + 1);
        }
        s.feed(chunks[i].as_slice(), out);
        assert(out@ =~= start + stream_state(needle@, replacement@, views.take(i + 1)).0);
        i = i + 1;
    }
    assert(views.take(chunks@.len() as int) =~= views);
    proof {
        lemma_joined_prefix_bound(views, chunks@.len() as int);
    }
    let c = s.finish(out);
    assert(out@ =~= start + streamed(needle@, replacement@, views).0);
    c
}

/// The bytes of a prefix of the chunks are no more than those of all of them.
proof fn lemma_joined_prefix_bound(chunks: Seq<Seq<u8>>, i: int)
    requires
        0 <= i <= chunks.len(),
    ensures
        joined(chunks.take(i)).len() <= joined(chunks).len(),
    decreases chunks.len(),
{
    if i < chunks.len() {
        assert(chunks.drop_last().take(i) =~= chunks.take(i));
        lemma_joined_prefix_bound(chunks.drop_last(), i);
    } else {
        assert(chunks.take(i) =~= chunks);
    }
}

/// Streaming replacement writes exactly what replacing in the whole stream at
/// once writes, and counts the same occurrences, however the stream is cut into
/// chunks.
pub proof fn lemma_stream_matches_whole(needle: Seq<u8>, rep: Seq<u8>, chunks: Seq<Seq<u8>>)
    ensures
        streamed(needle, rep, chunks) == replace_bytes(joined(chunks), needle, rep),
{
    lemma_stream_state(needle, rep, chunks, Seq::empty());
    assert(joined(chunks) + Seq::<u8>::empty() =~= joined(chunks));
    assert(stream_state(needle, rep, chunks).2 + Seq::<u8>::empty() =~= stream_state(needle, rep, chunks).2);
}

/// After the chunks, what the stream has written, followed by the whole
/// replacement of what it keeps back and of anything read later, is the whole
/// replacement of everything.
proof fn lemma_stream_state(needle: Seq<u8>, rep: Seq<u8>, chunks: Seq<Seq<u8>>, x: Seq<u8>)
    ensures
        ({
            let st = stream_state(needle, rep, chunks);
            let rest = replace_bytes(st.2 + x, needle, rep);
            replace_bytes(joined(chunks) + x, needle, rep) == (st.0 + rest.0, st.1 + rest.1)
        }),
    decreases chunks.len(),
{
    if chunks.len() == 0 {
        assert(joined(chunks) + x =~= x);
        assert(stream_state(needle, rep, chunks).2 + x =~= x);
        assert(Seq::<u8>::empty() + replace_bytes(x, needle, rep).0 =~= replace_bytes(x, needle, rep).0);
    } else {
        let init = chunks.drop_last();
        let last = chunks.last();
        let st = stream_state(needle, rep, init);
        lemma_stream_state(needle, rep, init, last + x);
        lemma_stream_step(st.2 + last, x, needle, rep);
        assert(joined(chunks) + x =~= joined(init) + (last + x));
        assert(st.2 + (last + x) =~= (st.2 + last) + x);
        let step = stream_step(st.2 + last, needle, rep);
        let rest = replace_bytes(step.2 + x, needle, rep);
        assert(st.0 + (step.0 + rest.0) =~= (st.0 + step.0) + rest.0);
    }
}

} // verus!
