//! Paths as callers write them: percent-decoding, the refusal of `..`, the
//! name and extension of a file, and the test that one resolved path lies
//! inside another. Paths are read as POSIX paths, with `/` between their
//! components.

use vstd::prelude::*;
use vstd::string::*;
use vstd::utf8::{decode_utf8, encode_utf8, valid_utf8};
use crate::effect::{FolderFacts, FolderFactsView, PathFacts, PathFactsView};
use crate::error::{result_view, DocumentError, DocumentErrorView, IoOperation, Target};
use crate::model::DocumentFileType;
use crate::text::{
    ascii_lowercase, chain, chain3, chars_of, same_ignoring_ascii_case, trim, trimmed,
};

verus! {

/// The value of a hexadecimal digit written in ASCII, if `byte` is one.
pub open spec fn hex_value(byte: u8) -> Option<u8> {
    if 0x30 <= byte <= 0x39 {
        Some((byte - 0x30) as u8)
    } else if 0x41 <= byte <= 0x46 {
        Some((byte - 0x41 + 10) as u8)
    } else if 0x61 <= byte <= 0x66 {
        Some((byte - 0x61 + 10) as u8)
    } else {
        None
    }
}

/// Whether `bytes` starts with `%` and two hexadecimal digits.
pub open spec fn starts_with_escape(bytes: Seq<u8>) -> bool {
    bytes.len() >= 3 && bytes[0] == 0x25 && hex_value(bytes[1]) is Some && hex_value(
        bytes[2],
    ) is Some
}

/// `bytes` with every `%` that two hexadecimal digits follow replaced, with
/// its digits, by the byte that the digits write. Every other byte stays,
/// a `%` without two such digits too.
pub open spec fn percent_decoded(bytes: Seq<u8>) -> Seq<u8>
    decreases bytes.len(),
{
    if bytes.len() == 0 {
        bytes
    } else if starts_with_escape(bytes) {
        seq![(hex_value(bytes[1])->0 * 16 + hex_value(bytes[2])->0) as u8] + percent_decoded(
            bytes.skip(3),
        )
    } else {
        seq![bytes[0]] + percent_decoded(bytes.skip(1))
    }
}

/// The path that `raw` stands for once its escapes are resolved: the text
/// that its decoded bytes encode in UTF-8, if they encode one.
pub open spec fn decoded_path(raw: Seq<char>) -> Option<Seq<char>> {
    let bytes = percent_decoded(encode_utf8(raw));
    if valid_utf8(bytes) {
        Some(decode_utf8(bytes))
    } else {
        None
    }
}

/// The standard library's error for bytes that are not UTF-8, which
/// `urlencoding::decode` fails with. Nothing is said of what it holds.
#[verifier::external_type_specification]
#[verifier::external_body]
pub struct ExFromUtf8Error(std::string::FromUtf8Error);

/// Calls `urlencoding::decode`. That function replaces each `%` followed by
/// two hexadecimal digits by the byte they write, keeps every other byte,
/// and fails exactly when the bytes it arrives at are not UTF-8.
#[verifier::external_body]
fn percent_decode(data: &str) -> (out: Result<String, std::string::FromUtf8Error>)
    ensures
        out is Ok <==> decoded_path(data@) is Some,
        out matches Ok(text) ==> decoded_path(data@) == Some(text@),
{
    match urlencoding::decode(data) {
        Ok(text) => Ok(text.into_owned()),
        Err(error) => Err(error),
    }
}

/// Resolves the percent-escapes of a path, once.
pub fn decode_path(raw: &str) -> (out: Result<String, DocumentError>)
    ensures
        match decoded_path(raw@) {
            Some(path) => out matches Ok(text) && text@ == path,
            None => out matches Err(error) && error@ == DocumentErrorView::InvalidEncoding,
        },
{
    match percent_decode(raw) {
        Ok(text) => Ok(text),
        Err(_) => Err(DocumentError::InvalidEncoding),
    }
}

/// Whether `path` steps to a folder above somewhere: `..` is among its
/// components.
pub open spec fn has_traversal(path: Seq<char>) -> bool {
    exists|k: int|
        0 <= k < components(path).len() && is_parent_segment(#[trigger] components(path)[k])
}

/// Decides [`has_traversal`].
pub fn contains_traversal(path: &str) -> (found: bool)
    ensures
        found == has_traversal(path@),
{
    let chars = chars_of(path);
    let spans = component_spans(&chars);
    let ghost parts = components(path@);
    let mut k: usize = 0;
    while k < spans.len()
        invariant
            k <= spans.len(),
            chars@ == path@,
            parts == components(path@),
            parts == span_texts(chars@, spans@),
            forall|i: int| 0 <= i < spans.len() ==> (#[trigger] spans[i]).0 < spans[i].1 <= chars.len(),
            forall|i: int| 0 <= i < k ==> !is_parent_segment(#[trigger] parts[i]),
        decreases spans.len() - k,
    {
        let span = spans[k];
        assert(parts[k as int] == span_text(chars@, span));
        if span.1 - span.0 == 2 && chars[span.0] == '.' && chars[span.0 + 1] == '.' {
            assert(is_parent_segment(parts[k as int]));
            return true;
        }
        k += 1;
    }
    false
}

/// Whether going through `parts` one after the other, `depth` folders below
/// where one started, one comes above the start: a `..` is met where no
/// folder is left to step out of.
pub open spec fn climbs(parts: Seq<Seq<char>>, depth: nat) -> bool
    decreases parts.len(),
{
    if parts.len() == 0 {
        false
    } else if is_parent_segment(parts[0]) {
        depth == 0 || climbs(parts.skip(1), (depth - 1) as nat)
    } else {
        climbs(parts.skip(1), depth + 1)
    }
}

/// Whether `path`, taken from a root, steps above that root by its text: it
/// does not start at the root of the filesystem, and somewhere a `..` is met
/// with as many `..` before it as other components.
pub open spec fn steps_out(path: Seq<char>) -> bool {
    !is_absolute(path) && climbs(components(path), 0)
}

/// Decides [`steps_out`].
pub fn leaves_root(path: &str) -> (out: bool)
    ensures
        out == steps_out(path@),
{
    let chars = chars_of(path);
    if chars.len() > 0 && chars[0] == '/' {
        return false;
    }
    let spans = component_spans(&chars);
    let ghost parts = components(path@);
    let mut depth: usize = 0;
    let mut k: usize = 0;
    assert(parts.skip(0) == parts);
    while k < spans.len()
        invariant
            k <= spans.len(),
            depth <= k,
            chars@ == path@,
            !is_absolute(path@),
            parts == components(path@),
            parts == span_texts(chars@, spans@),
            forall|i: int| 0 <= i < spans.len() ==> (#[trigger] spans[i]).0 < spans[i].1 <= chars.len(),
            climbs(parts, 0) == climbs(parts.skip(k as int), depth as nat),
        decreases spans.len() - k,
    {
        let span = spans[k];
        assert(parts.skip(k as int)[0] == span_text(chars@, span));
        assert(parts.skip(k as int).skip(1) == parts.skip(k + 1));
        if span.1 - span.0 == 2 && chars[span.0] == '.' && chars[span.0 + 1] == '.' {
            assert(is_parent_segment(parts.skip(k as int)[0]));
            if depth == 0 {
                return true;
            }
            depth -= 1;
        } else {
            depth += 1;
        }
        k += 1;
    }
    false
}

/// The pieces between the `/` of `path`, empty ones included.
pub open spec fn segments(path: Seq<char>) -> Seq<Seq<char>>
    decreases path.len(),
{
    if path.len() == 0 {
        seq![Seq::<char>::empty()]
    } else {
        let before = segments(path.drop_last());
        if path.last() == '/' {
            before.push(Seq::<char>::empty())
        } else {
            before.drop_last().push(before.last().push(path.last()))
        }
    }
}

/// Whether a segment counts as a component: it is neither empty nor `.`.
pub open spec fn is_component(segment: Seq<char>) -> bool {
    segment.len() > 0 && !(segment.len() == 1 && segment[0] == '.')
}

/// The segments that count as components, in order.
pub open spec fn keep_components(all: Seq<Seq<char>>) -> Seq<Seq<char>>
    decreases all.len(),
{
    if all.len() == 0 {
        all
    } else if is_component(all.last()) {
        keep_components(all.drop_last()).push(all.last())
    } else {
        keep_components(all.drop_last())
    }
}

/// The components of `path`: what stands between its `/`, without the empty
/// pieces and without `.`.
pub open spec fn components(path: Seq<char>) -> Seq<Seq<char>> {
    keep_components(segments(path))
}

/// Whether `path` starts at the root of the filesystem.
pub open spec fn is_absolute(path: Seq<char>) -> bool {
    path.len() > 0 && path[0] == '/'
}

/// Whether `segment` is `..`.
pub open spec fn is_parent_segment(segment: Seq<char>) -> bool {
    segment.len() == 2 && segment[0] == '.' && segment[1] == '.'
}

/// The name of the file or folder that `path` ends in: its last component,
/// unless there is none or it is `..`.
pub open spec fn file_name_of(path: Seq<char>) -> Option<Seq<char>> {
    let parts = components(path);
    if parts.len() == 0 || is_parent_segment(parts.last()) {
        None
    } else {
        Some(parts.last())
    }
}

/// Where the last dot of `name` stands, if it has one.
pub open spec fn last_dot(name: Seq<char>) -> Option<int>
    decreases name.len(),
{
    if name.len() == 0 {
        None
    } else if name.last() == '.' {
        Some(name.len() - 1)
    } else {
        last_dot(name.drop_last())
    }
}

/// The extension of a file's name: what follows its last dot, unless the
/// name has no dot or only the one it starts with.
pub open spec fn name_extension(name: Seq<char>) -> Option<Seq<char>> {
    match last_dot(name) {
        Some(dot) => if dot == 0 {
            None
        } else {
            Some(name.skip(dot + 1))
        },
        None => None,
    }
}

/// The extension of the file that `path` ends in.
pub open spec fn extension_of(path: Seq<char>) -> Option<Seq<char>> {
    match file_name_of(path) {
        Some(name) => name_extension(name),
        None => None,
    }
}

/// Whether `extension` is `word`, capital letters taken for small ones.
pub open spec fn extension_is(extension: Seq<char>, word: Seq<char>) -> bool {
    ascii_lowercase(extension) == ascii_lowercase(word)
}

/// The kind of document that an extension stands for: `md` and `markdown`
/// stand for Markdown, `json` for JSON, in capital or small letters.
pub open spec fn file_type_of(extension: Option<Seq<char>>) -> Option<DocumentFileType> {
    match extension {
        Some(ext) => if extension_is(ext, "md"@) || extension_is(ext, "markdown"@) {
            Some(DocumentFileType::Markdown)
        } else if extension_is(ext, "json"@) {
            Some(DocumentFileType::Json)
        } else {
            None
        },
        None => None,
    }
}

/// The kind of the document at `path`, for reading and updating:
/// `.md` and `.markdown` are Markdown, `.json` is JSON, nothing else passes.
/// Capital letters in the extension count as small ones.
pub open spec fn document_type(path: Seq<char>) -> Option<DocumentFileType> {
    file_type_of(extension_of(path))
}

/// Whether a file may be created at `path`: only Markdown may.
pub open spec fn may_create(path: Seq<char>) -> bool {
    document_type(path) == Some(DocumentFileType::Markdown)
}

/// `relative` taken from `root`: `relative` itself where it is absolute,
/// else `root`, a `/` unless `root` is empty or ends in one, and `relative`.
pub open spec fn joined(root: Seq<char>, relative: Seq<char>) -> Seq<char> {
    if is_absolute(relative) {
        relative
    } else if root.len() == 0 || root.last() == '/' {
        root + relative
    } else {
        root + seq!['/'] + relative
    }
}

/// Whether `candidate` is `root` or lies below it. Both are to be resolved
/// paths: absolute, without links. A path that is not absolute is inside
/// nothing and holds nothing.
pub open spec fn is_within(root: Seq<char>, candidate: Seq<char>) -> bool {
    &&& is_absolute(root)
    &&& is_absolute(candidate)
    &&& components(root).is_prefix_of(components(candidate))
}

/// The piece of `chars` that a span of two positions marks.
pub open spec fn span_text(chars: Seq<char>, span: (usize, usize)) -> Seq<char> {
    chars.subrange(span.0 as int, span.1 as int)
}

/// The pieces of `chars` that `spans` mark.
pub open spec fn span_texts(chars: Seq<char>, spans: Seq<(usize, usize)>) -> Seq<Seq<char>> {
    Seq::new(spans.len(), |i: int| span_text(chars, spans[i]))
}

proof fn lemma_segments_nonempty(path: Seq<char>)
    ensures
        segments(path).len() > 0,
    decreases path.len(),
{
    if path.len() > 0 {
        lemma_segments_nonempty(path.drop_last());
    }
}

proof fn lemma_segments_step(path: Seq<char>, j: int)
    requires
        0 <= j < path.len(),
    ensures
        segments(path.take(j)).len() > 0,
        path[j] == '/' ==> segments(path.take(j + 1)) == segments(path.take(j)).push(
            Seq::<char>::empty(),
        ),
        path[j] != '/' ==> segments(path.take(j + 1)) == segments(path.take(j)).drop_last().push(
            segments(path.take(j)).last().push(path[j]),
        ),
{
    lemma_segments_nonempty(path.take(j));
    assert(path.take(j + 1).drop_last() == path.take(j));
    assert(path.take(j + 1).last() == path[j]);
}

fn is_component_span(chars: &Vec<char>, start: usize, end: usize) -> (component: bool)
    requires
        start <= end <= chars.len(),
    ensures
        component == is_component(span_text(chars@, (start, end))),
{
    end > start && !(end - start == 1 && chars[start] == '.')
}

/// Marks the components of a path.
fn component_spans(chars: &Vec<char>) -> (spans: Vec<(usize, usize)>)
    ensures
        forall|i: int| 0 <= i < spans.len() ==> (#[trigger] spans[i]).0 < spans[i].1 <= chars.len(),
        span_texts(chars@, spans@) == components(chars@),
{
    let n = chars.len();
    let mut spans: Vec<(usize, usize)> = Vec::new();
    let mut start: usize = 0;
    let mut j: usize = 0;
    assert(chars@.take(0) == Seq::<char>::empty());
    assert(segments(chars@.take(0)).drop_last() == Seq::<Seq<char>>::empty());
    assert(span_texts(chars@, spans@) == Seq::<Seq<char>>::empty());
    assert(chars@.subrange(0, 0) == Seq::<char>::empty());
    while j < n
        invariant
            start <= j <= n,
            n == chars@.len(),
            segments(chars@.take(j as int)).len() > 0,
            segments(chars@.take(j as int)).last() == chars@.subrange(start as int, j as int),
            keep_components(segments(chars@.take(j as int)).drop_last()) == span_texts(
                chars@,
                spans@,
            ),
            forall|i: int| 0 <= i < spans.len() ==> (#[trigger] spans[i]).0 < spans[i].1 <= n,
        decreases n - j,
    {
        let ghost before = segments(chars@.take(j as int));
        let ghost after = segments(chars@.take(j + 1));
        let ghost old_spans = spans@;
        proof {
            lemma_segments_step(chars@, j as int);
        }
        if chars[j] == '/' {
            assert(after.drop_last() == before);
            if is_component_span(chars, start, j) {
                spans.push((start, j));
                assert(span_texts(chars@, spans@) == span_texts(chars@, old_spans).push(
                    span_text(chars@, (start, j)),
                ));
            }
            start = j + 1;
            assert(chars@.subrange(start as int, start as int) == Seq::<char>::empty());
        } else {
            assert(after.drop_last() == before.drop_last());
            assert(chars@.subrange(start as int, j as int).push(chars@[j as int])
                == chars@.subrange(start as int, j + 1));
        }
        j += 1;
    }
    assert(chars@.take(n as int) == chars@);
    let ghost old_spans = spans@;
    if is_component_span(chars, start, n) {
        spans.push((start, n));
        assert(span_texts(chars@, spans@) == span_texts(chars@, old_spans).push(
            span_text(chars@, (start, n)),
        ));
    }
    spans
}

/// Whether the pieces that two spans mark hold the same characters.
fn same_span(a: &Vec<char>, x: (usize, usize), b: &Vec<char>, y: (usize, usize)) -> (same: bool)
    requires
        x.0 <= x.1 <= a.len(),
        y.0 <= y.1 <= b.len(),
    ensures
        same == (span_text(a@, x) == span_text(b@, y)),
{
    if x.1 - x.0 != y.1 - y.0 {
        assert(span_text(a@, x).len() != span_text(b@, y).len());
        return false;
    }
    let len = x.1 - x.0;
    let mut k: usize = 0;
    while k < len
        invariant
            k <= len,
            len == x.1 - x.0,
            len == y.1 - y.0,
            x.1 <= a.len(),
            y.1 <= b.len(),
            forall|i: int| 0 <= i < k ==> span_text(a@, x)[i] == span_text(b@, y)[i],
        decreases len - k,
    {
        if a[x.0 + k] != b[y.0 + k] {
            assert(span_text(a@, x)[k as int] != span_text(b@, y)[k as int]);
            return false;
        }
        k += 1;
    }
    assert(span_text(a@, x) =~= span_text(b@, y));
    true
}

/// The text between two positions of `path`.
fn cut(path: &str, from: usize, to: usize) -> (out: String)
    requires
        from <= to <= path@.len(),
    ensures
        out@ == path@.subrange(from as int, to as int),
{
    String::from_str(path.substring_char(from, to))
}

/// The name of the file or folder that `path` ends in.
pub fn file_name(path: &str) -> (name: Option<String>)
    ensures
        name.deep_view() == file_name_of(path@),
{
    let chars = chars_of(path);
    let spans = component_spans(&chars);
    if spans.len() == 0 {
        return None;
    }
    let last = spans[spans.len() - 1];
    assert(components(path@).last() == span_text(chars@, last));
    if last.1 - last.0 == 2 && chars[last.0] == '.' && chars[last.0 + 1] == '.' {
        return None;
    }
    Some(cut(path, last.0, last.1))
}

proof fn lemma_last_dot_step(name: Seq<char>, k: int)
    requires
        0 <= k <= name.len(),
    ensures
        last_dot(name.take(k)) == if k == 0 {
            None
        } else if name[k - 1] == '.' {
            Some(k - 1)
        } else {
            last_dot(name.take(k - 1))
        },
{
    if k > 0 {
        assert(name.take(k).drop_last() == name.take(k - 1));
    }
}

/// The extension of the file that `path` ends in.
pub fn extension(path: &str) -> (ext: Option<String>)
    ensures
        ext.deep_view() == extension_of(path@),
{
    let chars = chars_of(path);
    let spans = component_spans(&chars);
    if spans.len() == 0 {
        return None;
    }
    let last = spans[spans.len() - 1];
    assert(components(path@).last() == span_text(chars@, last));
    if last.1 - last.0 == 2 && chars[last.0] == '.' && chars[last.0 + 1] == '.' {
        return None;
    }
    let ghost name = span_text(chars@, last);
    let mut k: usize = last.1;
    assert(name.take((k - last.0) as int) == name);
    loop
        invariant
            last.0 <= k <= last.1 <= chars.len(),
            name == span_text(chars@, last),
            last_dot(name) == last_dot(name.take((k - last.0) as int)),
        ensures
            last.0 <= k <= last.1,
            last_dot(name) == if k == last.0 {
                None
            } else {
                Some(k - 1 - last.0)
            },
        decreases k,
    {
        proof {
            lemma_last_dot_step(name, (k - last.0) as int);
        }
        if k == last.0 {
            break ;
        }
        if chars[k - 1] == '.' {
            break ;
        }
        k -= 1;
    }
    if k == last.0 || k - 1 == last.0 {
        return None;
    }
    assert(name.skip(k - last.0) == chars@.subrange(k as int, last.1 as int));
    Some(cut(path, k, last.1))
}

impl DocumentFileType {
    /// The kind of document that an extension stands for.
    pub fn from_extension(extension: Option<&str>) -> (kind: Option<DocumentFileType>)
        ensures
            kind == file_type_of(extension.deep_view()),
    {
        match extension {
            Some(ext) => {
                if same_ignoring_ascii_case(ext, "md") || same_ignoring_ascii_case(
                    ext,
                    "markdown",
                ) {
                    Some(DocumentFileType::Markdown)
                } else if same_ignoring_ascii_case(ext, "json") {
                    Some(DocumentFileType::Json)
                } else {
                    None
                }
            },
            None => None,
        }
    }

    /// The kind of the document at `path`, told by its extension.
    pub fn of_path(path: &str) -> (kind: Option<DocumentFileType>)
        ensures
            kind == document_type(path@),
    {
        match extension(path) {
            Some(ext) => DocumentFileType::from_extension(Some(ext.as_str())),
            None => None,
        }
    }
}

/// Whether a file may be created at `path`.
pub fn creatable(path: &str) -> (allowed: bool)
    ensures
        allowed == may_create(path@),
{
    match DocumentFileType::of_path(path) {
        Some(DocumentFileType::Markdown) => true,
        _ => false,
    }
}

/// Takes `relative` from `root`.
pub fn join(root: &str, relative: &str) -> (out: String)
    ensures
        out@ == joined(root@, relative@),
{
    let rel = chars_of(relative);
    if rel.len() > 0 && rel[0] == '/' {
        return String::from_str(relative);
    }
    let base = chars_of(root);
    if base.len() == 0 || base[base.len() - 1] == '/' {
        chain(root, relative)
    } else {
        proof {
            reveal_strlit("/");
        }
        assert("/"@ =~= seq!['/']);
        chain3(root, "/", relative)
    }
}

/// Decides [`is_within`].
pub fn within(root: &str, candidate: &str) -> (inside: bool)
    ensures
        inside == is_within(root@, candidate@),
{
    let outer = chars_of(root);
    let inner = chars_of(candidate);
    if outer.len() == 0 || outer[0] != '/' || inner.len() == 0 || inner[0] != '/' {
        return false;
    }
    let outer_spans = component_spans(&outer);
    let inner_spans = component_spans(&inner);
    assert(components(root@).len() == outer_spans.len());
    assert(components(candidate@).len() == inner_spans.len());
    if outer_spans.len() > inner_spans.len() {
        return false;
    }
    let ghost outer_parts = components(root@);
    let ghost inner_parts = components(candidate@);
    let mut k: usize = 0;
    while k < outer_spans.len()
        invariant
            k <= outer_spans.len() <= inner_spans.len(),
            outer_parts == components(root@),
            inner_parts == components(candidate@),
            outer_parts == span_texts(outer@, outer_spans@),
            inner_parts == span_texts(inner@, inner_spans@),
            forall|i: int|
                0 <= i < outer_spans.len() ==> (#[trigger] outer_spans[i]).0 < outer_spans[i].1
                    <= outer.len(),
            forall|i: int|
                0 <= i < inner_spans.len() ==> (#[trigger] inner_spans[i]).0 < inner_spans[i].1
                    <= inner.len(),
            forall|i: int| 0 <= i < k ==> outer_parts[i] == inner_parts[i],
        decreases outer_spans.len() - k,
    {
        if !same_span(&outer, outer_spans[k], &inner, inner_spans[k]) {
            assert(outer_parts[k as int] != inner_parts.subrange(0, outer_parts.len() as int)[k as int]);
            return false;
        }
        k += 1;
    }
    assert(outer_parts =~= inner_parts.subrange(0, outer_parts.len() as int));
    true
}

/// What a path that names something to create comes to before the disk is
/// looked at, once the whitespace around it is gone: the path itself, unless
/// it is empty, has `..` among its components, or, for a file, does not end in `.md` or
/// `.markdown`.
pub open spec fn plain_path_verdict(path: Seq<char>, target: Target) -> Result<
    Seq<char>,
    DocumentErrorView,
> {
    if path.len() == 0 {
        Err(DocumentErrorView::EmptyPath { target })
    } else if has_traversal(path) {
        Err(DocumentErrorView::PathTraversalAttempt)
    } else if target == Target::NewFile && !may_create(path) {
        Err(DocumentErrorView::UnsupportedFileType { target })
    } else {
        Ok(path)
    }
}

/// What a path that names something to create comes to before the disk is
/// looked at: the verdict on the path without the whitespace around it.
pub open spec fn creation_path(raw: Seq<char>, target: Target) -> Result<
    Seq<char>,
    DocumentErrorView,
> {
    plain_path_verdict(trimmed(raw), target)
}

/// Checks a path that names something to create and has no whitespace
/// around it, without looking at the disk.
pub fn check_trimmed_path(path: String, target: Target) -> (out: Result<String, DocumentError>)
    ensures
        result_view(out) == plain_path_verdict(path@, target),
{
    if path.as_str().unicode_len() == 0 {
        Err(DocumentError::EmptyPath { target })
    } else if contains_traversal(path.as_str()) {
        Err(DocumentError::PathTraversalAttempt)
    } else if target == Target::NewFile && !creatable(path.as_str()) {
        Err(DocumentError::UnsupportedFileType { target })
    } else {
        Ok(path)
    }
}

/// Checks the path of something to create, without looking at the disk.
pub fn check_new_path(raw: &str, target: Target) -> (out: Result<String, DocumentError>)
    ensures
        result_view(out) == creation_path(raw@, target),
{
    check_trimmed_path(trim(raw), target)
}

/// The folder that the components `parts` lead to, from the root of the
/// filesystem or from where one stands.
pub open spec fn folder_of(absolute: bool, parts: Seq<Seq<char>>) -> Seq<char> {
    if absolute {
        seq!['/'] + rejoined(parts)
    } else {
        rejoined(parts)
    }
}

/// The folders above `path`, from the nearest to the farthest: for each
/// component of the path but the last, the folder that the components up to
/// it lead to, and for a path from the root of the filesystem the root too.
pub open spec fn folders_above_of(path: Seq<char>) -> Seq<Seq<char>> {
    let parts = components(path);
    let count = if is_absolute(path) {
        parts.len() as int
    } else if parts.len() > 0 {
        parts.len() - 1
    } else {
        0
    };
    Seq::new(
        count as nat,
        |i: int| folder_of(is_absolute(path), parts.take(parts.len() - 1 - i)),
    )
}

proof fn lemma_rejoined_step(parts: Seq<Seq<char>>, k: int)
    requires
        0 <= k < parts.len(),
    ensures
        rejoined(parts.take(0)) == Seq::<char>::empty(),
        rejoined(parts.take(k + 1)) == if k == 0 {
            parts[0]
        } else {
            rejoined(parts.take(k)) + seq!['/'] + parts[k]
        },
{
    assert(parts.take(k + 1).drop_last() == parts.take(k));
    assert(parts.take(k + 1).last() == parts[k]);
    if k == 0 {
        assert(parts.take(1)[0] == parts[0]);
    }
}

/// Lists the folders above a path, from the nearest to the farthest.
pub fn folders_above(path: &str) -> (out: Vec<String>)
    ensures
        out.deep_view() == folders_above_of(path@),
{
    let chars = chars_of(path);
    let spans = component_spans(&chars);
    let absolute = chars.len() > 0 && chars[0] == '/';
    let n = spans.len();
    let ghost parts = components(path@);
    assert(parts.len() == n);
    proof {
        reveal_strlit("/");
    }
    assert("/"@ =~= seq!['/']);
    let mut current = if absolute {
        String::from_str("/")
    } else {
        String::new()
    };
    let mut prefixes: Vec<String> = Vec::new();
    assert(rejoined(parts.take(0)) == Seq::<char>::empty());
    assert(current@ =~= folder_of(absolute, parts.take(0)));
    let mut k: usize = 0;
    while k < n
        invariant
            k <= n,
            n == spans.len(),
            n == parts.len(),
            chars@ == path@,
            parts == span_texts(chars@, spans@),
            absolute == is_absolute(path@),
            "/"@ == seq!['/'],
            forall|i: int| 0 <= i < spans.len() ==> (#[trigger] spans[i]).0 < spans[i].1 <= chars.len(),
            prefixes.len() == k,
            current@ == folder_of(absolute, parts.take(k as int)),
            forall|j: int|
                0 <= j < k ==> (#[trigger] prefixes[j])@ == folder_of(absolute, parts.take(j)),
        decreases n - k,
    {
        prefixes.push(current.clone());
        let span = spans[k];
        let piece = cut(path, span.0, span.1);
        assert(piece@ == parts[k as int]);
        proof {
            lemma_rejoined_step(parts, k as int);
        }
        if k > 0 {
            current.append("/");
        }
        current.append(piece.as_str());
        assert(current@ =~= folder_of(absolute, parts.take(k + 1)));
        k += 1;
    }
    let stop: usize = if absolute {
        0
    } else {
        1
    };
    let mut out: Vec<String> = Vec::new();
    let mut i: usize = n;
    let ghost wanted = folders_above_of(path@);
    while i > stop
        invariant
            i <= n,
            n == parts.len(),
            prefixes.len() == n,
            parts == components(path@),
            absolute == is_absolute(path@),
            stop == if absolute {
                0usize
            } else {
                1usize
            },
            wanted == folders_above_of(path@),
            forall|j: int|
                0 <= j < n ==> (#[trigger] prefixes[j])@ == folder_of(absolute, parts.take(j)),
            n >= stop ==> i >= stop,
            out.len() == n - i,
            forall|j: int| 0 <= j < out.len() ==> (#[trigger] out[j])@ == wanted[j],
        decreases i,
    {
        i -= 1;
        let folder = prefixes[i].clone();
        assert(folder@ == wanted[n - 1 - i]);
        out.push(folder);
    }
    assert(out.len() == wanted.len());
    assert forall|j: int| 0 <= j < out.len() implies out.deep_view()[j] == wanted[j] by {
        assert(out.deep_view()[j] == out[j]@);
    }
    assert(out.deep_view() =~= wanted);
    out
}

/// The nearest of the folders above a target that exists: the first of
/// them, in their order, of which the disk says so.
pub open spec fn nearest_existing(above: Seq<FolderFactsView>) -> Option<FolderFactsView>
    decreases above.len(),
{
    if above.len() == 0 {
        None
    } else if above[0].exists {
        Some(above[0])
    } else {
        nearest_existing(above.skip(1))
    }
}

/// Whether the folder directly above the target exists.
pub open spec fn parent_exists(facts: PathFactsView) -> bool {
    facts.above.len() > 0 && facts.above[0].exists
}

/// Decides [`parent_exists`].
pub fn has_parent(facts: &PathFacts) -> (out: bool)
    ensures
        out == parent_exists(facts@),
{
    if facts.above.len() > 0 {
        assert(facts@.above[0] == facts.above[0]@);
        facts.above[0].exists
    } else {
        false
    }
}

/// Finds the nearest folder that exists among the folders above a target.
pub fn nearest_folder(above: &Vec<FolderFacts>) -> (out: Option<usize>)
    ensures
        match out {
            Some(at) => at < above.len() && nearest_existing(above.deep_view()) == Some(
                above[at as int]@,
            ),
            None => nearest_existing(above.deep_view()) is None,
        },
{
    let ghost all = above.deep_view();
    let mut i: usize = 0;
    assert(all.skip(0) == all);
    while i < above.len()
        invariant
            i <= above.len(),
            all == above.deep_view(),
            nearest_existing(all) == nearest_existing(all.skip(i as int)),
        decreases above.len() - i,
    {
        assert(all.skip(i as int)[0] == above[i as int]@);
        if above[i].exists {
            return Some(i);
        }
        assert(all.skip(i as int).skip(1) == all.skip(i + 1));
        i += 1;
    }
    None
}

/// Whether something may be created at a target, given what the disk says:
/// the repository must be a directory, the nearest existing folder above the
/// target must lie inside the repository once links are resolved, and the
/// target must not exist. Where none of the folders above the target
/// exists, nothing shows that the target lies inside, and it is denied.
pub open spec fn creation_verdict(facts: PathFactsView, target: Target, path: Seq<char>) -> Result<
    (),
    DocumentErrorView,
> {
    if !facts.root_is_dir {
        Err(DocumentErrorView::RepositoryMissing)
    } else {
        match facts.canonical_root {
            Err(detail) => Err(
                DocumentErrorView::IoFailure { operation: IoOperation::ResolveRepository, detail },
            ),
            Ok(root) => match nearest_existing(facts.above) {
                None => Err(DocumentErrorView::AccessDenied { target }),
                Some(folder) => match folder.canonical {
                    Err(detail) => Err(
                        DocumentErrorView::IoFailure {
                            operation: IoOperation::ResolveParent,
                            detail,
                        },
                    ),
                    Ok(ancestor) => if !is_within(root, ancestor) {
                        Err(DocumentErrorView::AccessDenied { target })
                    } else if facts.target_exists {
                        Err(DocumentErrorView::AlreadyExists { target, path })
                    } else {
                        Ok(())
                    },
                },
            },
        }
    }
}

/// Decides [`creation_verdict`].
pub fn check_creation(facts: &PathFacts, target: Target, path: &str) -> (out: Result<
    (),
    DocumentError,
>)
    ensures
        result_view(out) == creation_verdict(facts@, target, path@),
{
    if !facts.root_is_dir {
        return Err(DocumentError::RepositoryMissing);
    }
    match &facts.canonical_root {
        Err(detail) => Err(
            DocumentError::IoFailure {
                operation: IoOperation::ResolveRepository,
                detail: detail.clone(),
            },
        ),
        Ok(root) => match nearest_folder(&facts.above) {
            None => Err(DocumentError::AccessDenied { target }),
            Some(at) => match &facts.above[at].canonical {
                Err(detail) => Err(
                    DocumentError::IoFailure {
                        operation: IoOperation::ResolveParent,
                        detail: detail.clone(),
                    },
                ),
                Ok(ancestor) => {
                    if !within(root.as_str(), ancestor.as_str()) {
                        Err(DocumentError::AccessDenied { target })
                    } else if facts.target_exists {
                        Err(DocumentError::AlreadyExists { target, path: String::from_str(path) })
                    } else {
                        Ok(())
                    }
                },
            },
        },
    }
}

/// Whether what was created lies inside its repository: both resolve, and
/// the target's resolved path is the root's or below it.
pub open spec fn created_inside(facts: PathFactsView) -> bool {
    match (facts.canonical_root, facts.canonical_target) {
        (Ok(root), Ok(target)) => is_within(root, target),
        _ => false,
    }
}

/// Decides [`created_inside`].
pub fn check_created(facts: &PathFacts) -> (inside: bool)
    ensures
        inside == created_inside(facts@),
{
    match &facts.canonical_root {
        Ok(root) => match &facts.canonical_target {
            Ok(target) => within(root.as_str(), target.as_str()),
            Err(_) => false,
        },
        Err(_) => false,
    }
}

/// What a repository makes of a path that is to name a document in it.
#[derive(Debug, Clone, Copy, PartialEq, Eq, Structural)]
pub enum Presence {
    /// The repository does not hold the document.
    Absent,
    /// The path leads out of the repository.
    Escaped,
    /// The repository holds the document.
    Present,
}

/// Whether a repository holds the document at a target, given what the
/// disk says. Where the root or the target cannot be resolved, the document
/// is not there. Where the resolved target lies outside the resolved root,
/// the path has escaped, whatever it leads to. Else the document is there
/// if the target is a regular file.
pub open spec fn existing_verdict(facts: PathFactsView) -> Presence {
    match (facts.canonical_root, facts.canonical_target) {
        (Ok(root), Ok(target)) => if !is_within(root, target) {
            Presence::Escaped
        } else if facts.target_is_file {
            Presence::Present
        } else {
            Presence::Absent
        },
        _ => Presence::Absent,
    }
}

/// Decides [`existing_verdict`].
pub fn check_existing(facts: &PathFacts) -> (presence: Presence)
    ensures
        presence == existing_verdict(facts@),
{
    match &facts.canonical_root {
        Ok(root) => match &facts.canonical_target {
            Ok(target) => {
                if !within(root.as_str(), target.as_str()) {
                    Presence::Escaped
                } else if facts.target_is_file {
                    Presence::Present
                } else {
                    Presence::Absent
                }
            },
            Err(_) => Presence::Absent,
        },
        Err(_) => Presence::Absent,
    }
}

proof fn lemma_climbing_meets_parent(parts: Seq<Seq<char>>, depth: nat)
    requires
        climbs(parts, depth),
    ensures
        exists|k: int| 0 <= k < parts.len() && is_parent_segment(#[trigger] parts[k]),
    decreases parts.len(),
{
    if is_parent_segment(parts[0]) {
        assert(is_parent_segment(parts[0]));
    } else {
        let rest = parts.skip(1);
        lemma_climbing_meets_parent(rest, depth + 1);
        let k = choose|k: int| 0 <= k < rest.len() && is_parent_segment(#[trigger] rest[k]);
        assert(parts[k + 1] == rest[k]);
    }
}

/// An empty path has no components.
pub proof fn lemma_empty_path_has_no_components(path: Seq<char>)
    requires
        path.len() == 0,
    ensures
        components(path).len() == 0,
{
    let only = segments(path);
    assert(only.len() == 1);
    assert(!is_component(only.last()));
    assert(only.drop_last().len() == 0);
    assert(keep_components(only) == keep_components(only.drop_last()));
    assert(keep_components(only.drop_last()) == only.drop_last());
}

proof fn lemma_segments_without_slash(name: Seq<char>)
    requires
        !name.contains('/'),
    ensures
        segments(name) == seq![name],
    decreases name.len(),
{
    if name.len() == 0 {
        assert(name =~= Seq::<char>::empty());
        assert(segments(name) =~= seq![name]);
    } else {
        let shorter = name.drop_last();
        assert(name.contains(name.last()));
        assert forall|i: int| 0 <= i < shorter.len() implies shorter[i] != '/' by {
            assert(name.contains(name[i]));
        }
        lemma_segments_without_slash(shorter);
        let before = segments(shorter);
        assert(before.drop_last().push(before.last().push(name.last())) == seq![
            shorter.push(name.last()),
        ]);
        assert(shorter.push(name.last()) == name);
    }
}

/// A name that is not empty, holds no `/` and is not `.` is a path of one
/// component, itself.
pub proof fn lemma_name_is_one_component(name: Seq<char>)
    requires
        !name.contains('/'),
        is_component(name),
    ensures
        components(name) == seq![name],
{
    lemma_segments_without_slash(name);
    let only = segments(name);
    assert(only.drop_last().len() == 0);
    assert(keep_components(only.drop_last()) == only.drop_last());
    assert(keep_components(only) == keep_components(only.drop_last()).push(only.last()));
    assert(keep_components(only) == seq![name]);
}

/// A path that steps above its root has `..` among its components, so
/// nothing is created at such a path.
pub proof fn law_stepping_out_is_traversal(path: Seq<char>)
    requires
        steps_out(path),
    ensures
        has_traversal(path),
{
    lemma_climbing_meets_parent(components(path), 0);
}

proof fn lemma_segments_of_chain(front: Seq<char>, back: Seq<char>)
    ensures
        segments(front).len() > 0,
        segments(back).len() > 0,
        segments(front + back) == segments(front).drop_last().push(
            segments(front).last() + segments(back)[0],
        ) + segments(back).skip(1),
    decreases back.len(),
{
    lemma_segments_nonempty(front);
    lemma_segments_nonempty(back);
    let head = segments(front).drop_last();
    let seam = segments(front).last();
    if back.len() == 0 {
        assert(front + back == front);
        assert(seam + segments(back)[0] == seam);
        assert(head.push(seam) + segments(back).skip(1) == segments(front));
    } else {
        let shorter = back.drop_last();
        let c = back.last();
        lemma_segments_of_chain(front, shorter);
        lemma_segments_nonempty(shorter);
        let whole = front + back;
        assert(whole.drop_last() == front + shorter);
        assert(whole.last() == c);
        let before = segments(front + shorter);
        let tail = segments(shorter);
        assert(before == head.push(seam + tail[0]) + tail.skip(1));
        if c == '/' {
            assert(segments(whole) == before.push(Seq::<char>::empty()));
            assert(segments(back) == tail.push(Seq::<char>::empty()));
            assert(segments(back)[0] == tail[0]);
            assert(segments(back).skip(1) == tail.skip(1).push(Seq::<char>::empty()));
            assert(segments(whole) == head.push(seam + segments(back)[0]) + segments(back).skip(1));
        } else {
            assert(segments(whole) == before.drop_last().push(before.last().push(c)));
            assert(segments(back) == tail.drop_last().push(tail.last().push(c)));
            if tail.len() == 1 {
                assert(tail.skip(1) == Seq::<Seq<char>>::empty());
                assert(before == head.push(seam + tail[0]));
                assert(before.drop_last() == head);
                assert(before.last() == seam + tail[0]);
                assert((seam + tail[0]).push(c) == seam + tail[0].push(c));
                assert(segments(back)[0] == tail[0].push(c));
                assert(segments(back).skip(1) == Seq::<Seq<char>>::empty());
                assert(segments(whole) == head.push(seam + segments(back)[0]) + segments(
                    back,
                ).skip(1));
            } else {
                assert(before.last() == tail.last());
                assert(before.drop_last() == head.push(seam + tail[0]) + tail.skip(1).drop_last());
                assert(segments(back)[0] == tail[0]);
                assert(segments(back).skip(1) == tail.skip(1).drop_last().push(
                    tail.last().push(c),
                ));
                assert(segments(whole) == head.push(seam + segments(back)[0]) + segments(
                    back,
                ).skip(1));
            }
        }
    }
}

proof fn lemma_keep_of_chain(front: Seq<Seq<char>>, back: Seq<Seq<char>>)
    ensures
        keep_components(front + back) == keep_components(front) + keep_components(back),
    decreases back.len(),
{
    if back.len() == 0 {
        assert(front + back == front);
        assert(keep_components(front) + keep_components(back) == keep_components(front));
    } else {
        let shorter = back.drop_last();
        lemma_keep_of_chain(front, shorter);
        assert((front + back).drop_last() == front + shorter);
        assert((front + back).last() == back.last());
        if is_component(back.last()) {
            assert((keep_components(front) + keep_components(shorter)).push(back.last())
                == keep_components(front) + keep_components(shorter).push(back.last()));
        }
    }
}

/// A path that does not start at the root of the filesystem, taken from a
/// root, has the root's components and then its own.
pub proof fn lemma_components_of_joined(root: Seq<char>, relative: Seq<char>)
    requires
        !is_absolute(relative),
    ensures
        components(joined(root, relative)) == components(root) + components(relative),
{
    lemma_segments_nonempty(root);
    lemma_segments_nonempty(relative);
    let tail = segments(relative);
    assert(seq![tail[0]] + tail.skip(1) == tail);
    if root.len() == 0 {
        assert(root + relative == relative);
        lemma_empty_path_has_no_components(root);
        assert(components(root) == Seq::<Seq<char>>::empty());
        assert(components(root) + components(relative) == components(relative));
    } else {
        let base = if root.last() == '/' {
            root
        } else {
            root.push('/')
        };
        assert(joined(root, relative) == base + relative) by {
            if root.last() != '/' {
                assert(root + seq!['/'] + relative == root.push('/') + relative);
            }
        }
        assert(base.drop_last() == if root.last() == '/' {
            root.drop_last()
        } else {
            root
        });
        let head = segments(base).drop_last();
        assert(segments(base).last() == Seq::<char>::empty());
        assert(keep_components(segments(base)) == keep_components(head));
        assert(keep_components(head) == components(root)) by {
            if root.last() != '/' {
                assert(head == segments(root));
            }
        }
        lemma_segments_of_chain(base, relative);
        assert(Seq::<char>::empty() + tail[0] == tail[0]);
        assert(segments(base + relative) == head + tail) by {
            assert(head.push(tail[0]) + tail.skip(1) == head + tail);
        }
        lemma_keep_of_chain(head, tail);
    }
}

/// A path that passes for creation cannot step out of the root by its own
/// text: if `..` is not among its components and it does not start at the
/// root of the filesystem, then the path taken from the root has the root's
/// components and after them only components that are not `..`. What is
/// left to the disk is to say where links lead.
pub proof fn law_plain_path_stays_below(root: Seq<char>, path: Seq<char>)
    requires
        !has_traversal(path),
        !is_absolute(path),
    ensures
        components(root).is_prefix_of(components(joined(root, path))),
        components(joined(root, path)) == components(root) + components(path),
        forall|k: int|
            0 <= k < components(path).len() ==> !is_parent_segment(#[trigger] components(path)[k]),
{
    lemma_components_of_joined(root, path);
    assert((components(root) + components(path)).subrange(0, components(root).len() as int)
        == components(root));
}

proof fn lemma_scalar_has_no_percent_byte(scalar: u32)
    requires
        scalar != 0x25,
    ensures
        forall|k: int|
            0 <= k < vstd::utf8::encode_scalar(scalar).len() ==> #[trigger] vstd::utf8::encode_scalar(
                scalar,
            )[k] != 0x25,
{
    assert((scalar & 0x7F) as u8 != 0x25 || scalar > 0x7F) by (bit_vector)
        requires
            scalar != 0x25,
    ;
    assert(0xC0u8 | ((scalar >> 6) & 0x1F) as u8 != 0x25) by (bit_vector);
    assert(0xE0u8 | ((scalar >> 12) & 0x0F) as u8 != 0x25) by (bit_vector);
    assert(0xF0u8 | ((scalar >> 18) & 0x7) as u8 != 0x25) by (bit_vector);
    assert(0x80u8 | (scalar & 0x3F) as u8 != 0x25) by (bit_vector);
    assert(0x80u8 | ((scalar >> 6) & 0x3F) as u8 != 0x25) by (bit_vector);
    assert(0x80u8 | ((scalar >> 12) & 0x3F) as u8 != 0x25) by (bit_vector);
}

proof fn lemma_text_has_no_percent_byte(text: Seq<char>)
    requires
        !text.contains('%'),
    ensures
        !encode_utf8(text).contains(0x25u8),
    decreases text.len(),
{
    if text.len() > 0 {
        let rest = text.drop_first();
        assert forall|i: int| 0 <= i < rest.len() implies rest[i] != '%' by {
            assert(rest[i] == text[i + 1]);
            assert(text.contains(text[i + 1]));
        }
        lemma_text_has_no_percent_byte(rest);
        assert(text.contains(text[0]));
        assert(text[0] as u32 != 0x25) by {
            if text[0] as u32 == 0x25 {
                vstd::utf8::char_u32_cast(text[0], 0x25u32);
                vstd::utf8::char_u32_cast('%', 0x25u32);
            }
        }
        lemma_scalar_has_no_percent_byte(text[0] as u32);
        let first = vstd::utf8::encode_scalar(text[0] as u32);
        let bytes = encode_utf8(text);
        assert(bytes == first + encode_utf8(rest));
        assert forall|k: int| 0 <= k < bytes.len() implies bytes[k] != 0x25u8 by {
            if k >= first.len() {
                assert(encode_utf8(rest).contains(encode_utf8(rest)[k - first.len()]));
            }
        }
    }
}

proof fn lemma_plain_bytes_decode_to_themselves(bytes: Seq<u8>)
    requires
        !bytes.contains(0x25u8),
    ensures
        percent_decoded(bytes) == bytes,
    decreases bytes.len(),
{
    if bytes.len() > 0 {
        assert(bytes.contains(bytes[0]));
        let rest = bytes.skip(1);
        assert forall|i: int| 0 <= i < rest.len() implies rest[i] != 0x25u8 by {
            assert(bytes.contains(bytes[i + 1]));
        }
        lemma_plain_bytes_decode_to_themselves(rest);
        assert(seq![bytes[0]] + rest == bytes);
    }
}

/// A path without a percent sign stands for itself: decoding gives it back
/// as it is.
pub proof fn law_plain_path_decodes_to_itself(path: Seq<char>)
    requires
        !path.contains('%'),
    ensures
        decoded_path(path) == Some(path),
{
    lemma_text_has_no_percent_byte(path);
    lemma_plain_bytes_decode_to_themselves(encode_utf8(path));
    vstd::utf8::encode_utf8_valid_utf8(path);
    vstd::utf8::encode_utf8_decode_utf8(path);
}

/// The pieces put together again, with a `/` between each two.
pub open spec fn rejoined(pieces: Seq<Seq<char>>) -> Seq<char>
    decreases pieces.len(),
{
    if pieces.len() == 0 {
        Seq::empty()
    } else if pieces.len() == 1 {
        pieces[0]
    } else {
        rejoined(pieces.drop_last()) + seq!['/'] + pieces.last()
    }
}

/// The segments of a path are what stands between its `/`: none of them
/// holds a `/`, and put together again with a `/` between each two they are
/// the path.
pub proof fn law_segments_are_the_pieces_between_slashes(path: Seq<char>)
    ensures
        segments(path).len() > 0,
        forall|k: int| 0 <= k < segments(path).len() ==> !(#[trigger] segments(path)[k]).contains('/'),
        rejoined(segments(path)) == path,
    decreases path.len(),
{
    let all = segments(path);
    if path.len() == 0 {
        assert(rejoined(all) == all[0]);
        assert(all[0] == path);
    } else {
        let shorter = path.drop_last();
        let before = segments(shorter);
        let c = path.last();
        law_segments_are_the_pieces_between_slashes(shorter);
        assert(shorter.push(c) == path);
        if c == '/' {
            assert(all.drop_last() == before);
            assert(rejoined(all) == rejoined(before) + seq!['/'] + Seq::<char>::empty());
            assert(rejoined(before) + seq!['/'] + Seq::<char>::empty() == shorter.push('/'));
            assert forall|k: int| 0 <= k < all.len() implies !(#[trigger] all[k]).contains('/') by {
                if k < before.len() {
                    assert(all[k] == before[k]);
                }
            }
        } else {
            let grown = before.last().push(c);
            assert(all.last() == grown);
            assert(all.drop_last() == before.drop_last());
            assert(!grown.contains('/')) by {
                if grown.contains('/') {
                    let i = choose|i: int| 0 <= i < grown.len() && grown[i] == '/';
                    assert(before.last()[i] == '/');
                    assert(before.last().contains('/'));
                }
            }
            assert forall|k: int| 0 <= k < all.len() implies !(#[trigger] all[k]).contains('/') by {
                if k < before.len() - 1 {
                    assert(all[k] == before[k]);
                }
            }
            if before.len() == 1 {
                assert(rejoined(before) == before[0]);
                assert(rejoined(all) == grown);
            } else {
                assert(rejoined(all) == rejoined(before.drop_last()) + seq!['/'] + grown);
                assert(rejoined(before.drop_last()) + seq!['/'] + grown == (rejoined(
                    before.drop_last(),
                ) + seq!['/'] + before.last()).push(c));
            }
        }
    }
}

} // verus!
