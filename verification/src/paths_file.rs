//! The gzip-compressed paths index: reading its lines, keeping the lines of chosen
//! `cc-index-table` subsets, and writing the kept lines back.

use crate::errors::DownloadError;
use crate::text::chars_of;
use crate::text::contains_chars;
use crate::text::contains_seq;
use crate::third_party::gunzip;
use crate::third_party::gunzip_output;
use crate::third_party::gunzipped;
use crate::third_party::gzip;
use crate::third_party::gzipped;
use crate::third_party::utf8_string;
use vstd::prelude::*;
use vstd::utf8::decode_utf8;
use vstd::utf8::encode_utf8;
use vstd::utf8::valid_utf8;

verus! {

broadcast use vstd::string::group_string_axioms;

/// The line feed that ends a line.
pub open spec fn is_line_feed(b: u8) -> bool {
    b == 10
}

/// A line ended by a line feed loses one carriage return that stood before it.
pub open spec fn strip_cr(line: Seq<u8>) -> Seq<u8> {
    if line.len() > 0 && line.last() == 13 {
        line.drop_last()
    } else {
        line
    }
}

/// Reading `b` from the start: the lines completed so far, and the bytes of the line
/// not yet ended.
pub open spec fn scan_lines(b: Seq<u8>) -> (Seq<Seq<u8>>, Seq<u8>)
    decreases b.len(),
{
    if b.len() == 0 {
        (Seq::empty(), Seq::empty())
    } else {
        let (done, cur) = scan_lines(b.drop_last());
        if is_line_feed(b.last()) {
            (done.push(strip_cr(cur)), Seq::empty())
        } else {
            (done, cur.push(b.last()))
        }
    }
}

/// The lines of `b` as `BufRead::lines` reads them: split at each line feed, a line feed
/// and one carriage return before it taken off, and a last line without a line feed
/// kept where it is not empty.
pub open spec fn split_lines(b: Seq<u8>) -> Seq<Seq<u8>> {
    let (done, cur) = scan_lines(b);
    if cur.len() == 0 {
        done
    } else {
        done.push(cur)
    }
}

/// Every line is valid UTF-8.
pub open spec fn all_valid(raw: Seq<Seq<u8>>) -> bool {
    forall|i: int| 0 <= i < raw.len() ==> valid_utf8(#[trigger] raw[i])
}

/// The lines that are valid UTF-8, decoded, in order; the others are passed over.
pub open spec fn decoded_lines(raw: Seq<Seq<u8>>) -> Seq<Seq<char>>
    decreases raw.len(),
{
    if raw.len() == 0 {
        Seq::empty()
    } else {
        let rest = decoded_lines(raw.drop_last());
        if valid_utf8(raw.last()) {
            rest.push(decode_utf8(raw.last()))
        } else {
            rest
        }
    }
}

/// The lines of uncompressed paths data, where every one of them is valid UTF-8.
pub open spec fn plain_lines(plain: Seq<u8>) -> Option<Seq<Seq<char>>> {
    if all_valid(split_lines(plain)) {
        Some(decoded_lines(split_lines(plain)))
    } else {
        None
    }
}

/// The lines of a paths file, where every line is valid UTF-8: of its decompressed
/// content where it is gzip-compressed, else of the file itself, read as plain text.
pub open spec fn paths_file_lines(data: Seq<u8>) -> Option<Seq<Seq<char>>> {
    match gunzipped(data) {
        Some(plain) => plain_lines(plain),
        None => plain_lines(data),
    }
}

fn strip_cr_exec(line: Vec<u8>) -> (r: Vec<u8>)
    ensures
        r@ == strip_cr(line@),
{
    let mut line = line;
    let n = line.len();
    if n > 0 && line[n - 1] == 13 {
        line.pop();
    }
    line
}

/// Reads `b` from the start: the lines ended by a line feed, and the bytes after the last
/// line feed.
pub fn scan_lines_exec(b: &[u8]) -> (r: (Vec<Vec<u8>>, Vec<u8>))
    ensures
        (r.0.deep_view(), r.1@) == scan_lines(b@),
{
    let mut done: Vec<Vec<u8>> = Vec::new();
    let mut cur: Vec<u8> = Vec::new();
    let mut i: usize = 0;
    while i < b.len()
        invariant
            i <= b.len(),
            (done.deep_view(), cur@) == scan_lines(b@.take(i as int)),
        decreases b.len() - i,
    {
        let x = b[i];
        assert(b@.take(i + 1).drop_last() =~= b@.take(i as int));
        assert(b@.take(i + 1).last() == x);
        if x == 10 {
            let ghost old_done = done.deep_view();
            let line = strip_cr_exec(cur);
            assert(line.deep_view() =~= line@);
            done.push(line);
            cur = Vec::new();
            assert(done.deep_view() =~= old_done.push(strip_cr(scan_lines(b@.take(i as int)).1)));
        } else {
            cur.push(x);
        }
        i = i + 1;
    }
    assert(b@.take(b.len() as int) =~= b@);
    (done, cur)
}

/// The lines of `b`, split as `BufRead::lines` splits them.
pub fn split_lines_exec(b: &[u8]) -> (lines: Vec<Vec<u8>>)
    ensures
        lines.deep_view() == split_lines(b@),
{
    let (mut done, cur) = scan_lines_exec(b);
    if cur.len() > 0 {
        let ghost old_done = done.deep_view();
        assert(cur.deep_view() =~= cur@);
        done.push(cur);
        assert(done.deep_view() =~= old_done.push(scan_lines(b@).1));
    }
    done
}

/// The lines that are valid UTF-8, decoded, and whether every line was.
pub fn decode_lines(raw: &Vec<Vec<u8>>) -> (r: (Vec<String>, bool))
    ensures
        r.0.deep_view() == decoded_lines(raw.deep_view()),
        r.1 == all_valid(raw.deep_view()),
{
    let ghost rv = raw.deep_view();
    let mut out: Vec<String> = Vec::new();
    let mut valid = true;
    let mut i: usize = 0;
    while i < raw.len()
        invariant
            rv == raw.deep_view(),
            i <= raw.len(),
            out.deep_view() == decoded_lines(rv.take(i as int)),
            valid == all_valid(rv.take(i as int)),
        decreases raw.len() - i,
    {
        assert(rv.take(i + 1).drop_last() =~= rv.take(i as int));
        assert(rv.take(i + 1).last() == rv[i as int]);
        assert(rv[i as int] == raw@[i as int]@);
        let line = raw[i].clone();
        assert(line@ == rv[i as int]);
        match utf8_string(line) {
            Some(text) => {
                let ghost old_out = out.deep_view();
                out.push(text);
                assert(out.deep_view() =~= old_out.push(decode_utf8(rv[i as int])));
            },
            None => {
                valid = false;
            },
        }
        assert(valid == all_valid(rv.take(i + 1))) by {
            if valid {
                assert forall|k: int| 0 <= k < i + 1 implies valid_utf8(#[trigger] rv.take(i + 1)[k]) by {
                    if k < i {
                        assert(rv.take(i + 1)[k] == rv.take(i as int)[k]);
                    }
                }
            } else {
                if valid_utf8(rv[i as int]) {
                    let k = choose|k: int| 0 <= k < i && !valid_utf8(#[trigger] rv.take(i as int)[k]);
                    assert(rv.take(i + 1)[k] == rv.take(i as int)[k]);
                } else {
                    assert(rv.take(i + 1)[i as int] == rv[i as int]);
                }
            }
        }
        i = i + 1;
    }
    assert(rv.take(raw.len() as int) =~= rv);
    (out, valid)
}

/// The lines of uncompressed paths data; fails with the message that `BufRead::lines`
/// gives where a line is not valid UTF-8.
pub fn read_plain_paths(plain: &[u8]) -> (r: Result<Vec<String>, DownloadError>)
    ensures
        match plain_lines(plain@) {
            Some(lines) => r matches Ok(v) && v.deep_view() == lines,
            None => (r matches Err(DownloadError::Custom(m)) && m@ == "stream did not contain valid UTF-8"@),
        },
{
    let raw = split_lines_exec(plain);
    let (lines, valid) = decode_lines(&raw);
    if valid {
        Ok(lines)
    } else {
        Err(DownloadError::Custom("stream did not contain valid UTF-8".to_owned()))
    }
}

/// The lines of a paths file: gzip-compressed (a `.paths.gz` index), or plain text (an
/// index that was decompressed beforehand).
///
/// Fails with the message that `BufRead::lines` gives where a line is not valid UTF-8.
pub fn read_paths_file(data: &[u8]) -> (r: Result<Vec<String>, DownloadError>)
    ensures
        match paths_file_lines(data@) {
            Some(lines) => r matches Ok(v) && v.deep_view() == lines,
            None => (r matches Err(DownloadError::Custom(m)) && m@ == "stream did not contain valid UTF-8"@),
        },
        forall|plain: Seq<u8>| #[trigger] gzipped(plain) == data@ ==> match plain_lines(plain) {
            Some(lines) => r matches Ok(v) && v.deep_view() == lines,
            None => r is Err,
        },
{
    let (plain, outcome) = gunzip(data);
    match outcome {
        Ok(()) => read_plain_paths(plain.as_slice()),
        Err(_) => read_plain_paths(data),
    }
}

/// The text that marks a path of the `cc-index-table` subset `subset`.
pub open spec fn subset_marker(subset: Seq<char>) -> Seq<char> {
    "subset="@ + subset
}

/// A line is kept where it holds the marker of one of the requested subsets.
pub open spec fn keeps_line(line: Seq<char>, subsets: Seq<String>) -> bool {
    exists|k: int| 0 <= k < subsets.len() && contains_seq(line, subset_marker(#[trigger] subsets[k]@))
}

/// The lines that are kept, in their order.
pub open spec fn kept_lines(lines: Seq<Seq<char>>, subsets: Seq<String>) -> Seq<Seq<char>>
    decreases lines.len(),
{
    if lines.len() == 0 {
        Seq::empty()
    } else {
        let rest = kept_lines(lines.drop_last(), subsets);
        if keeps_line(lines.last(), subsets) {
            rest.push(lines.last())
        } else {
            rest
        }
    }
}

/// The bytes of `lines` written out, each followed by a line feed.
pub open spec fn encode_lines(lines: Seq<Seq<char>>) -> Seq<u8>
    decreases lines.len(),
{
    if lines.len() == 0 {
        Seq::empty()
    } else {
        encode_lines(lines.drop_last()) + encode_utf8(lines.last()) + seq![10u8]
    }
}

fn subset_markers(subsets: &[String]) -> (markers: Vec<Vec<char>>)
    ensures
        markers.len() == subsets.len(),
        forall|k: int| 0 <= k < subsets.len() ==> #[trigger] markers@[k]@ == subset_marker(subsets@[k]@),
{
    let mut markers: Vec<Vec<char>> = Vec::new();
    let mut i: usize = 0;
    while i < subsets.len()
        invariant
            i <= subsets.len(),
            markers.len() == i,
            forall|k: int| 0 <= k < i ==> #[trigger] markers@[k]@ == subset_marker(subsets@[k]@),
        decreases subsets.len() - i,
    {
        let mut marker = "subset=".to_owned();
        marker.append(subsets[i].as_str());
        markers.push(chars_of(marker.as_str()));
        i = i + 1;
    }
    markers
}

fn keeps_line_exec(line: &Vec<char>, subsets: &[String], markers: &Vec<Vec<char>>) -> (r: bool)
    requires
        markers.len() == subsets.len(),
        forall|k: int| 0 <= k < subsets.len() ==> #[trigger] markers@[k]@ == subset_marker(subsets@[k]@),
    ensures
        r == keeps_line(line@, subsets@),
{
    let mut k: usize = 0;
    while k < markers.len()
        invariant
            markers.len() == subsets.len(),
            forall|j: int| 0 <= j < subsets.len() ==> #[trigger] markers@[j]@ == subset_marker(subsets@[j]@),
            k <= markers.len(),
            forall|j: int| 0 <= j < k ==> !contains_seq(line@, subset_marker(#[trigger] subsets@[j]@)),
        decreases markers.len() - k,
    {
        if contains_chars(line, &markers[k]) {
            assert(markers@[k as int]@ == subset_marker(subsets@[k as int]@));
            return true;
        }
        k = k + 1;
    }
    false
}

/// The lines that hold the marker `subset=<name>` of one of `subsets`, in their order.
pub fn filter_subset_lines(lines: &Vec<String>, subsets: &[String]) -> (kept: Vec<String>)
    ensures
        kept.deep_view() == kept_lines(lines.deep_view(), subsets@),
        kept.deep_view() == lines.deep_view().filter(
            |line: Seq<char>|
                exists|k: int| 0 <= k < subsets@.len() && contains_seq(line, "subset="@ + #[trigger] subsets@[k]@),
        ),
{
    proof {
        law_kept_lines_are_marked_lines(lines.deep_view(), subsets@);
    }
    let ghost lv = lines.deep_view();
    let markers = subset_markers(subsets);
    let mut kept: Vec<String> = Vec::new();
    let mut i: usize = 0;
    while i < lines.len()
        invariant
            lv == lines.deep_view(),
            i <= lines.len(),
            markers.len() == subsets.len(),
            forall|k: int| 0 <= k < subsets.len() ==> #[trigger] markers@[k]@ == subset_marker(subsets@[k]@),
            kept.deep_view() == kept_lines(lv.take(i as int), subsets@),
        decreases lines.len() - i,
    {
        assert(lv.take(i + 1).drop_last() =~= lv.take(i as int));
        assert(lv.take(i + 1).last() == lines@[i as int]@);
        let line_chars = chars_of(lines[i].as_str());
        if keeps_line_exec(&line_chars, subsets, &markers) {
            let ghost old_kept = kept.deep_view();
            kept.push(lines[i].clone());
            assert(kept.deep_view() =~= old_kept.push(lines@[i as int]@));
        }
        i = i + 1;
    }
    assert(lv.take(lines.len() as int) =~= lv);
    kept
}

/// The bytes of `lines`, each line followed by a line feed.
pub fn encode_lines_exec(lines: &Vec<String>) -> (out: Vec<u8>)
    ensures
        out@ == encode_lines(lines.deep_view()),
{
    let ghost lv = lines.deep_view();
    let mut out: Vec<u8> = Vec::new();
    let mut i: usize = 0;
    while i < lines.len()
        invariant
            lv == lines.deep_view(),
            i <= lines.len(),
            out@ == encode_lines(lv.take(i as int)),
        decreases lines.len() - i,
    {
        assert(lv.take(i + 1).drop_last() =~= lv.take(i as int));
        assert(lv.take(i + 1).last() == lines@[i as int]@);
        let bytes = lines[i].as_str().as_bytes();
        let ghost before = out@;
        let mut j: usize = 0;
        while j < bytes.len()
            invariant
                j <= bytes.len(),
                out@ == before + bytes@.take(j as int),
            decreases bytes.len() - j,
        {
            out.push(bytes[j]);
            assert(bytes@.take(j + 1) =~= bytes@.take(j as int).push(bytes@[j as int]));
            j = j + 1;
        }
        assert(bytes@.take(bytes.len() as int) =~= bytes@);
        out.push(10u8);
        i = i + 1;
    }
    assert(lv.take(lines.len() as int) =~= lv);
    out
}

/// The lines of uncompressed paths data that hold `subset=<name>` for one of `subsets`,
/// in their order; lines that are not valid UTF-8 are passed over.
pub fn kept_paths(plain: &[u8], subsets: &[String]) -> (kept: Vec<String>)
    ensures
        kept.deep_view() == kept_lines(decoded_lines(split_lines(plain@)), subsets@),
{
    let raw = split_lines_exec(plain);
    let (lines, _all_valid) = decode_lines(&raw);
    filter_subset_lines(&lines, subsets)
}

/// The lines ended by a line feed in data whose decompression broke off, that hold
/// `subset=<name>` for one of `subsets`, in their order. The bytes after the last line feed
/// belong to the read that failed, and are dropped with it.
pub fn kept_complete_paths(partial: &[u8], subsets: &[String]) -> (kept: Vec<String>)
    ensures
        kept.deep_view() == kept_lines(decoded_lines(scan_lines(partial@).0), subsets@),
{
    let (raw, _rest) = scan_lines_exec(partial);
    let (lines, _all_valid) = decode_lines(&raw);
    filter_subset_lines(&lines, subsets)
}

/// A paths file cut down to the lines of the requested subsets.
pub struct FilteredPaths {
    /// The lines that were kept, in their order.
    pub lines: Vec<String>,
    /// The kept lines, each followed by a line feed, gzip-compressed.
    pub compressed: Vec<u8>,
}

/// The lines a paths file is cut down to: those of its decompressed content that hold the
/// marker of a requested subset, in their order. Where decompression breaks off, only the
/// lines completed before it count.
pub open spec fn filtered_lines(data: Seq<u8>, subsets: Seq<String>) -> Seq<Seq<char>> {
    let (out, complete) = gunzip_output(data);
    if complete {
        kept_lines(decoded_lines(split_lines(out)), subsets)
    } else {
        kept_lines(decoded_lines(scan_lines(out).0), subsets)
    }
}

/// Cuts a gzip-compressed paths file down to the lines that hold `subset=<name>` for one
/// of `subsets`, and compresses those lines again.
///
/// Lines that are not valid UTF-8 are passed over, as when they are read with
/// `BufRead::lines` and the failed lines dropped; data that does not decompress yields no
/// lines beyond those completed before decompression broke off.
pub fn filter_paths_file(data: &[u8], subsets: &[String]) -> (f: FilteredPaths)
    ensures
        f.lines.deep_view() == filtered_lines(data@, subsets@),
        f.compressed@ == gzipped(encode_lines(f.lines.deep_view())),
        forall|plain: Seq<u8>| #[trigger] gzipped(plain) == data@ ==> f.lines.deep_view() == kept_lines(
            decoded_lines(split_lines(plain)),
            subsets@,
        ),
{
    let (plain, outcome) = gunzip(data);
    let kept = match outcome {
        Ok(()) => kept_paths(plain.as_slice(), subsets),
        Err(_) => kept_complete_paths(plain.as_slice(), subsets),
    };
    let encoded = encode_lines_exec(&kept);
    let compressed = match gzip(encoded.as_slice()) {
        Ok(c) => c,
        Err(_) => vstd::pervasive::unreached(),
    };
    FilteredPaths { lines: kept, compressed }
}

/// The bytes hold no line feed.
pub open spec fn no_line_feed(b: Seq<u8>) -> bool {
    forall|i: int| 0 <= i < b.len() ==> !is_line_feed(#[trigger] b[i])
}

/// The bytes end with a carriage return.
pub open spec fn ends_with_cr(b: Seq<u8>) -> bool {
    b.len() > 0 && b.last() == 13
}

proof fn lemma_scan_without_line_feed(x: Seq<u8>, e: Seq<u8>)
    requires
        no_line_feed(e),
    ensures
        scan_lines(x + e) == (scan_lines(x).0, scan_lines(x).1 + e),
    decreases e.len(),
{
    if e.len() == 0 {
        assert(x + e =~= x);
        assert(scan_lines(x).1 + e =~= scan_lines(x).1);
    } else {
        let e0 = e.drop_last();
        assert((x + e).drop_last() =~= x + e0);
        assert((x + e).last() == e.last());
        assert(!is_line_feed(e[e.len() - 1]));
        lemma_scan_without_line_feed(x, e0);
        assert((scan_lines(x).1 + e0).push(e.last()) =~= scan_lines(x).1 + e);
    }
}

proof fn lemma_split_lines_no_line_feed(b: Seq<u8>)
    ensures
        no_line_feed(scan_lines(b).1),
        forall|i: int| 0 <= i < scan_lines(b).0.len() ==> no_line_feed(#[trigger] scan_lines(b).0[i]),
        forall|i: int| 0 <= i < split_lines(b).len() ==> no_line_feed(#[trigger] split_lines(b)[i]),
    decreases b.len(),
{
    if b.len() > 0 {
        lemma_split_lines_no_line_feed(b.drop_last());
        let (done, cur) = scan_lines(b.drop_last());
        if is_line_feed(b.last()) {
            let line = strip_cr(cur);
            assert(no_line_feed(line)) by {
                assert forall|i: int| 0 <= i < line.len() implies !is_line_feed(#[trigger] line[i]) by {
                    assert(line[i] == cur[i]);
                }
            }
            assert forall|i: int| 0 <= i < done.push(line).len() implies no_line_feed(
                #[trigger] done.push(line)[i],
            ) by {
                if i < done.len() {
                    assert(done.push(line)[i] == done[i]);
                }
            }
        } else {
            let c2 = cur.push(b.last());
            assert forall|i: int| 0 <= i < c2.len() implies !is_line_feed(#[trigger] c2[i]) by {
                if i < cur.len() {
                    assert(c2[i] == cur[i]);
                }
            }
        }
    }
    let (done, cur) = scan_lines(b);
    if cur.len() > 0 {
        assert forall|i: int| 0 <= i < done.push(cur).len() implies no_line_feed(
            #[trigger] done.push(cur)[i],
        ) by {
            if i < done.len() {
                assert(done.push(cur)[i] == done[i]);
            }
        }
    }
}

/// The byte form of each line, as it is written out.
pub open spec fn encoded_each(lines: Seq<Seq<char>>) -> Seq<Seq<u8>> {
    lines.map_values(|l: Seq<char>| encode_utf8(l))
}

proof fn lemma_scan_encoded_lines(lines: Seq<Seq<char>>)
    requires
        forall|i: int| 0 <= i < lines.len() ==> no_line_feed(#[trigger] encode_utf8(lines[i])),
        forall|i: int| 0 <= i < lines.len() ==> !ends_with_cr(#[trigger] encode_utf8(lines[i])),
    ensures
        scan_lines(encode_lines(lines)) == (encoded_each(lines), Seq::<u8>::empty()),
    decreases lines.len(),
{
    if lines.len() > 0 {
        let rest = lines.drop_last();
        let e = encode_utf8(lines.last());
        assert(no_line_feed(encode_utf8(lines[lines.len() - 1])));
        assert(!ends_with_cr(encode_utf8(lines[lines.len() - 1])));
        assert forall|i: int| 0 <= i < rest.len() implies no_line_feed(#[trigger] encode_utf8(rest[i])) && !ends_with_cr(encode_utf8(rest[i])) by {
            assert(rest[i] == lines[i]);
            assert(no_line_feed(encode_utf8(lines[i])));
            assert(!ends_with_cr(encode_utf8(lines[i])));
        }
        lemma_scan_encoded_lines(rest);
        let x = encode_lines(rest);
        let all = encode_lines(lines);
        assert(all.drop_last() =~= x + e);
        assert(all.last() == 10u8);
        lemma_scan_without_line_feed(x, e);
        assert(Seq::<u8>::empty() + e =~= e);
        assert(strip_cr(e) == e);
        assert(encoded_each(rest).push(e) =~= encoded_each(lines));
    }
}

proof fn lemma_decode_encoded(lines: Seq<Seq<char>>)
    ensures
        all_valid(encoded_each(lines)),
        decoded_lines(encoded_each(lines)) == lines,
    decreases lines.len(),
{
    broadcast use vstd::utf8::encode_utf8_valid_utf8, vstd::utf8::encode_utf8_decode_utf8;

    if lines.len() > 0 {
        lemma_decode_encoded(lines.drop_last());
        assert(encoded_each(lines).drop_last() =~= encoded_each(lines.drop_last()));
        assert(encoded_each(lines).last() == encode_utf8(lines.last()));
        assert(lines.drop_last().push(lines.last()) =~= lines);
    }
}

/// `line` is the decoding of one of the valid lines of `raw`.
pub open spec fn decoded_from(raw: Seq<Seq<u8>>, line: Seq<char>) -> bool {
    exists|k: int| 0 <= k < raw.len() && valid_utf8(raw[k]) && line == decode_utf8(raw[k])
}

proof fn lemma_decoded_lines_from(raw: Seq<Seq<u8>>)
    ensures
        forall|j: int| 0 <= j < decoded_lines(raw).len() ==> decoded_from(raw, #[trigger] decoded_lines(raw)[j]),
    decreases raw.len(),
{
    if raw.len() > 0 {
        let rest = raw.drop_last();
        lemma_decoded_lines_from(rest);
        let d = decoded_lines(raw);
        assert forall|j: int| 0 <= j < d.len() implies decoded_from(raw, #[trigger] d[j]) by {
            if j < decoded_lines(rest).len() {
                assert(d[j] == decoded_lines(rest)[j]);
                assert(decoded_from(rest, decoded_lines(rest)[j]));
                let k = choose|k: int| 0 <= k < rest.len() && valid_utf8(rest[k])
                    && decoded_lines(rest)[j] == decode_utf8(rest[k]);
                assert(raw[k] == rest[k]);
            } else {
                assert(valid_utf8(raw.last()));
                assert(d == decoded_lines(rest).push(decode_utf8(raw.last())));
                assert(raw[raw.len() - 1] == raw.last());
            }
        }
    }
}

proof fn lemma_kept_lines_from(lines: Seq<Seq<char>>, subsets: Seq<String>)
    ensures
        forall|j: int| 0 <= j < kept_lines(lines, subsets).len() ==> exists|k: int| 0 <= k < lines.len()
            && #[trigger] kept_lines(lines, subsets)[j] == lines[k],
        forall|j: int| 0 <= j < kept_lines(lines, subsets).len() ==> keeps_line(
            #[trigger] kept_lines(lines, subsets)[j],
            subsets,
        ),
    decreases lines.len(),
{
    if lines.len() > 0 {
        let rest = lines.drop_last();
        lemma_kept_lines_from(rest, subsets);
        let kp = kept_lines(lines, subsets);
        assert forall|j: int| 0 <= j < kp.len() implies (exists|k: int| 0 <= k < lines.len()
            && #[trigger] kp[j] == lines[k]) && keeps_line(kp[j], subsets) by {
            if j < kept_lines(rest, subsets).len() {
                assert(kp[j] == kept_lines(rest, subsets)[j]);
                let k = choose|k: int| 0 <= k < rest.len() && kept_lines(rest, subsets)[j] == rest[k];
                assert(lines[k] == rest[k]);
            } else {
                assert(lines[lines.len() - 1] == lines.last());
            }
        }
    }
}

/// Writing lines out and reading them back gives the same lines, where no line's bytes
/// hold a line feed or end with a carriage return.
pub proof fn law_written_lines_read_back(lines: Seq<Seq<char>>)
    requires
        forall|i: int| 0 <= i < lines.len() ==> no_line_feed(#[trigger] encode_utf8(lines[i])),
        forall|i: int| 0 <= i < lines.len() ==> !ends_with_cr(#[trigger] encode_utf8(lines[i])),
    ensures
        plain_lines(encode_lines(lines)) == Some(lines),
{
    lemma_scan_encoded_lines(lines);
    lemma_decode_encoded(lines);
    assert(split_lines(encode_lines(lines)) == encoded_each(lines));
}

proof fn lemma_kept_raw_lines_read_back(raw: Seq<Seq<u8>>, subsets: Seq<String>)
    requires
        forall|i: int| 0 <= i < raw.len() ==> no_line_feed(#[trigger] raw[i]),
        forall|i: int| 0 <= i < kept_lines(decoded_lines(raw), subsets).len() ==> !ends_with_cr(
            encode_utf8(#[trigger] kept_lines(decoded_lines(raw), subsets)[i]),
        ),
    ensures
        plain_lines(encode_lines(kept_lines(decoded_lines(raw), subsets))) == Some(
            kept_lines(decoded_lines(raw), subsets),
        ),
        forall|j: int| 0 <= j < kept_lines(decoded_lines(raw), subsets).len() ==> keeps_line(
            #[trigger] kept_lines(decoded_lines(raw), subsets)[j],
            subsets,
        ),
{
    broadcast use vstd::utf8::decode_utf8_encode_utf8;

    let decoded = decoded_lines(raw);
    let kept = kept_lines(decoded, subsets);
    lemma_decoded_lines_from(raw);
    lemma_kept_lines_from(decoded, subsets);
    assert forall|i: int| 0 <= i < kept.len() implies no_line_feed(#[trigger] encode_utf8(kept[i])) by {
        let k = choose|k: int| 0 <= k < decoded.len() && kept[i] == decoded[k];
        assert(decoded_from(raw, decoded_lines(raw)[k]));
        let m = choose|m: int| 0 <= m < raw.len() && valid_utf8(raw[m]) && decoded_lines(raw)[k] == decode_utf8(raw[m]);
        assert(encode_utf8(decode_utf8(raw[m])) == raw[m]);
        assert(no_line_feed(raw[m]));
    }
    assert forall|i: int| 0 <= i < kept.len() implies !ends_with_cr(#[trigger] encode_utf8(kept[i])) by {
        assert(kept[i] == kept_lines(decoded_lines(raw), subsets)[i]);
    }
    law_written_lines_read_back(kept);
}

/// The filtered paths file, read back, holds exactly the lines of the unfiltered file that
/// carry the marker of a requested subset, in the order they stood there, where no kept
/// line still ends with a carriage return once its line ending is taken off.
pub proof fn law_filtered_file_reads_back(plain: Seq<u8>, subsets: Seq<String>)
    requires
        forall|i: int| 0 <= i < kept_lines(decoded_lines(split_lines(plain)), subsets).len() ==> !ends_with_cr(
            encode_utf8(#[trigger] kept_lines(decoded_lines(split_lines(plain)), subsets)[i]),
        ),
    ensures
        plain_lines(encode_lines(kept_lines(decoded_lines(split_lines(plain)), subsets))) == Some(
            kept_lines(decoded_lines(split_lines(plain)), subsets),
        ),
        forall|j: int| 0 <= j < kept_lines(decoded_lines(split_lines(plain)), subsets).len()
            ==> keeps_line(#[trigger] kept_lines(decoded_lines(split_lines(plain)), subsets)[j], subsets),
{
    lemma_split_lines_no_line_feed(plain);
    lemma_kept_raw_lines_read_back(split_lines(plain), subsets);
}

/// Every requested subset of `s1` is also requested in `s2`.
pub open spec fn subsets_within(s1: Seq<String>, s2: Seq<String>) -> bool {
    forall|i: int| 0 <= i < s1.len() ==> requests(s2, #[trigger] s1[i]@)
}

/// `name` is one of the requested subsets.
pub open spec fn requests(subsets: Seq<String>, name: Seq<char>) -> bool {
    exists|j: int| 0 <= j < subsets.len() && #[trigger] subsets[j]@ == name
}

/// `a` is a subsequence of `b`: `b` with some of its items left out.
pub open spec fn is_subsequence(a: Seq<Seq<char>>, b: Seq<Seq<char>>) -> bool
    decreases b.len(),
{
    if a.len() == 0 {
        true
    } else if b.len() == 0 {
        false
    } else if a.last() == b.last() {
        is_subsequence(a.drop_last(), b.drop_last())
    } else {
        is_subsequence(a, b.drop_last())
    }
}

proof fn lemma_keeps_line_within(line: Seq<char>, s1: Seq<String>, s2: Seq<String>)
    requires
        subsets_within(s1, s2),
        keeps_line(line, s1),
    ensures
        keeps_line(line, s2),
{
    let k = choose|k: int| 0 <= k < s1.len() && contains_seq(line, subset_marker(#[trigger] s1[k]@));
    assert(requests(s2, s1[k]@));
    let j = choose|j: int| 0 <= j < s2.len() && #[trigger] s2[j]@ == s1[k]@;
    assert(contains_seq(line, subset_marker(s2[j]@)));
}

/// Filtering with a list of subsets, then with one of its sublists, keeps what filtering
/// with the sublist alone keeps.
pub proof fn law_filter_narrowing(lines: Seq<Seq<char>>, s1: Seq<String>, s2: Seq<String>)
    requires
        subsets_within(s1, s2),
    ensures
        kept_lines(kept_lines(lines, s2), s1) == kept_lines(lines, s1),
    decreases lines.len(),
{
    if lines.len() > 0 {
        let rest = lines.drop_last();
        law_filter_narrowing(rest, s1, s2);
        let x = lines.last();
        if keeps_line(x, s2) {
            let k2 = kept_lines(rest, s2).push(x);
            assert(k2.drop_last() =~= kept_lines(rest, s2));
            assert(k2.last() == x);
        } else {
            if keeps_line(x, s1) {
                lemma_keeps_line_within(x, s1, s2);
            }
        }
    }
}

/// Filtering a second time with the same subsets keeps every line.
pub proof fn law_filter_idempotent(lines: Seq<Seq<char>>, subsets: Seq<String>)
    ensures
        kept_lines(kept_lines(lines, subsets), subsets) == kept_lines(lines, subsets),
{
    assert forall|i: int| 0 <= i < subsets.len() implies requests(subsets, #[trigger] subsets[i]@) by {
        assert(subsets[i]@ == subsets[i]@);
    }
    law_filter_narrowing(lines, subsets, subsets);
}

proof fn lemma_subsequence_push(a: Seq<Seq<char>>, b: Seq<Seq<char>>, x: Seq<char>)
    requires
        is_subsequence(a, b),
    ensures
        is_subsequence(a, b.push(x)),
    decreases b.len(), 1int,
{
    assert(b.push(x).drop_last() =~= b);
    if a.len() > 0 && a.last() == x {
        lemma_subsequence_drop_last(a, b);
    }
}

proof fn lemma_subsequence_drop_last(a: Seq<Seq<char>>, b: Seq<Seq<char>>)
    requires
        is_subsequence(a, b),
        a.len() > 0,
    ensures
        is_subsequence(a.drop_last(), b),
    decreases b.len(), 0int,
{
    let a0 = a.drop_last();
    let b0 = b.drop_last();
    assert(b0.push(b.last()) =~= b);
    if a.last() == b.last() {
        lemma_subsequence_push(a0, b0, b.last());
    } else {
        lemma_subsequence_drop_last(a, b0);
        lemma_subsequence_push(a0, b0, b.last());
    }
}

proof fn lemma_kept_lines_subsequence(lines: Seq<Seq<char>>, subsets: Seq<String>)
    ensures
        is_subsequence(kept_lines(lines, subsets), lines),
    decreases lines.len(),
{
    if lines.len() > 0 {
        let rest = lines.drop_last();
        lemma_kept_lines_subsequence(rest, subsets);
        assert(rest.push(lines.last()) =~= lines);
        if keeps_line(lines.last(), subsets) {
            let k = kept_lines(rest, subsets).push(lines.last());
            assert(k.drop_last() =~= kept_lines(rest, subsets));
        } else {
            lemma_subsequence_push(kept_lines(rest, subsets), rest, lines.last());
        }
    }
}

/// Asking for more subsets never drops a kept line: the lines kept with `s1` are a
/// subsequence of those kept with `s2`, where `s2` requests every subset that `s1` does.
pub proof fn law_more_subsets_keep_more(lines: Seq<Seq<char>>, s1: Seq<String>, s2: Seq<String>)
    requires
        subsets_within(s1, s2),
    ensures
        is_subsequence(kept_lines(lines, s1), kept_lines(lines, s2)),
{
    law_filter_narrowing(lines, s1, s2);
    lemma_kept_lines_subsequence(kept_lines(lines, s2), s1);
}

/// Filtering a filtered paths file again with the same subsets keeps all of its lines, so
/// the rewritten file is the same stream: whether the first file decompressed fully or broke
/// off, where no kept line still ends with a carriage return once its line ending is taken
/// off. (The filtered file is `gzipped(encode_lines(filtered_lines(data, subsets)))`, which
/// decompresses fully to `encode_lines(..)`.)
pub proof fn law_filter_twice(data: Seq<u8>, subsets: Seq<String>)
    requires
        forall|i: int| 0 <= i < filtered_lines(data, subsets).len() ==> !ends_with_cr(
            encode_utf8(#[trigger] filtered_lines(data, subsets)[i]),
        ),
    ensures
        plain_lines(encode_lines(filtered_lines(data, subsets))) == Some(filtered_lines(data, subsets)),
        kept_lines(decoded_lines(split_lines(encode_lines(filtered_lines(data, subsets)))), subsets)
            == filtered_lines(data, subsets),
{
    let (out, complete) = gunzip_output(data);
    let raw = if complete { split_lines(out) } else { scan_lines(out).0 };
    lemma_split_lines_no_line_feed(out);
    assert(filtered_lines(data, subsets) == kept_lines(decoded_lines(raw), subsets));
    lemma_kept_raw_lines_read_back(raw, subsets);
    law_filter_idempotent(decoded_lines(raw), subsets);
}

/// The subset filter keeps exactly the lines that hold `subset=<name>` for one of the
/// requested names, however many names are requested, and keeps them in their order: it is
/// the input filtered by that test.
pub proof fn law_kept_lines_are_marked_lines(lines: Seq<Seq<char>>, subsets: Seq<String>)
    ensures
        kept_lines(lines, subsets) == lines.filter(
            |line: Seq<char>|
                exists|k: int| 0 <= k < subsets.len() && contains_seq(line, "subset="@ + #[trigger] subsets[k]@),
        ),
    decreases lines.len(),
{
    let pred = |line: Seq<char>|
        exists|k: int| 0 <= k < subsets.len() && contains_seq(line, "subset="@ + #[trigger] subsets[k]@);
    if lines.len() > 0 {
        law_kept_lines_are_marked_lines(lines.drop_last(), subsets);
        let x = lines.last();
        if keeps_line(x, subsets) {
            let k = choose|k: int| 0 <= k < subsets.len() && contains_seq(x, subset_marker(#[trigger] subsets[k]@));
            assert(contains_seq(x, "subset="@ + subsets[k]@));
        }
        if pred(x) {
            let k = choose|k: int| 0 <= k < subsets.len() && contains_seq(x, "subset="@ + #[trigger] subsets[k]@);
            assert(contains_seq(x, subset_marker(subsets[k]@)));
        }
        assert(pred(x) == keeps_line(x, subsets));
        reveal(Seq::filter);
        assert(lines.filter(pred) == (if pred(x) {
            lines.drop_last().filter(pred).push(x)
        } else {
            lines.drop_last().filter(pred)
        }));
    }
}

} // verus!
