//! TaskNotes integration: reading task notes (Markdown with a frontmatter block) and
//! importing them into the task store.
use crate::text::{
    chars_equal, copy_range, find_char, line_content_end, lemma_next_char_index, next_char_index,
    str_chars, string_from_chars, strip, strip_range, Trimmed,
};
use crate::codec::has_prefix;
use crate::store::{
    chars_lt, chars_lt_exec, is_listing, listed_before, lemma_chars_lt_order, lemma_listed_order, links_listed,
    ExternalLinkStore,
    StoreError, TaskStore,
};
use crate::sync::{
    identity_match, link_has_key, links_with_key, tasks_with_id, tasks_with_title, MatchView, match_remote_identity, ExternalLink, ExternalProvider, IdentityMatch, LinkView, ProviderView,
    RemoteTaskIdentity, SyncError, SyncMode, SyncPreview, SyncState,
};
use crate::task::{
    clone_opt_string, opt_str_view, strs_view, DeadlineType, Priority, Task, TaskStatus, TaskView,
};
use vstd::prelude::*;

verus! {

pub open spec fn opt_chars(o: Option<Vec<char>>) -> Option<Seq<char>> {
    match o {
        Some(v) => Some(v@),
        None => None,
    }
}

/// The line that opens a frontmatter block.
pub open spec fn frontmatter_open() -> Seq<char> {
    seq!['-', '-', '-', '\n']
}

/// The line break, line and line break that close a frontmatter block.
pub open spec fn frontmatter_close() -> Seq<char> {
    seq!['\n', '-', '-', '-', '\n']
}

/// Position of the first closing delimiter at or after `p`, or -1.
pub open spec fn find_close(s: Seq<char>, p: int) -> int
    decreases s.len() - p,
{
    if p < 0 || p + 5 > s.len() {
        -1
    } else if s.subrange(p, p + 5) == frontmatter_close() {
        p
    } else {
        find_close(s, p + 1)
    }
}

pub struct NoteParts {
    pub frontmatter: Option<Seq<char>>,
    pub body: Seq<char>,
}

/// A note that starts with `---\n` and has a later `\n---\n` splits into the text between
/// them and the text after; any other note is all body.
pub open spec fn split_frontmatter(s: Seq<char>) -> NoteParts {
    if s.len() >= 4 && s.subrange(0, 4) == frontmatter_open() {
        let rest = s.subrange(4, s.len() as int);
        let k = find_close(rest, 0);
        if k >= 0 {
            NoteParts {
                frontmatter: Some(rest.subrange(0, k)),
                body: rest.subrange(k + 5, rest.len() as int),
            }
        } else {
            NoteParts { frontmatter: None, body: s }
        }
    } else {
        NoteParts { frontmatter: None, body: s }
    }
}

/// Frontmatter keys, in the order a field lookup accepts them.
#[derive(Clone, Copy, PartialEq, Eq, Structural)]
pub enum FieldKind {
    ExternalId,
    TodoAppId,
    Title,
}

pub open spec fn field_keys(kind: FieldKind) -> Seq<Seq<char>> {
    match kind {
        FieldKind::ExternalId => seq![
            seq!['i', 'd'],
            seq!['t', 'a', 's', 'k', '_', 'i', 'd'],
            seq!['t', 'a', 's', 'k', 'I', 'd'],
        ],
        FieldKind::TodoAppId => seq![
            seq!['t', 'o', 'd', 'o', '_', 'a', 'p', 'p', '_', 'i', 'd'],
            seq!['t', 'o', 'd', 'o', 'A', 'p', 'p', 'I', 'd'],
        ],
        FieldKind::Title => seq![seq!['t', 'i', 't', 'l', 'e'], seq!['n', 'a', 'm', 'e']],
    }
}

/// A field value with surrounding space and quotes removed; empty values and values that
/// open a list or a map give nothing.
pub open spec fn clean_scalar(v: Seq<char>) -> Option<Seq<char>> {
    let t = strip(
        strip(strip(strip(v, Trimmed::WhiteSpace), Trimmed::DoubleQuote), Trimmed::SingleQuote),
        Trimmed::WhiteSpace,
    );
    if t.len() == 0 || t[0] == '[' || t[0] == '{' {
        None
    } else {
        Some(t)
    }
}

/// The value of a `key: value` line whose trimmed key is one of `keys`.
pub open spec fn line_field(line: Seq<char>, keys: Seq<Seq<char>>) -> Option<Seq<char>> {
    let i = next_char_index(line, 0, ':');
    if i >= line.len() {
        None
    } else if keys.contains(strip(line.subrange(0, i), Trimmed::WhiteSpace)) {
        clean_scalar(line.subrange(i + 1, line.len() as int))
    } else {
        None
    }
}

/// The first line, from position `p` on, that yields a value for one of `keys`.
pub open spec fn field_from(s: Seq<char>, p: int, keys: Seq<Seq<char>>) -> Option<Seq<char>>
    decreases s.len() + 1 - p,
{
    if p < 0 || p >= s.len() {
        None
    } else {
        match line_field(s.subrange(p, line_content_end(s, p)), keys) {
            Some(v) => Some(v),
            None => {
                proof {
                    lemma_next_char_index(s, p, '\n');
                }
                field_from(s, next_char_index(s, p, '\n') + 1, keys)
            },
        }
    }
}

/// The text of a `# ` heading line, trimmed, if it is not empty.
pub open spec fn line_heading(line: Seq<char>) -> Option<Seq<char>> {
    if line.len() >= 2 && line[0] == '#' && line[1] == ' ' {
        let h = strip(line.subrange(2, line.len() as int), Trimmed::WhiteSpace);
        if h.len() > 0 {
            Some(h)
        } else {
            None
        }
    } else {
        None
    }
}

/// The first non-empty `# ` heading from position `p` on.
pub open spec fn heading_from(s: Seq<char>, p: int) -> Option<Seq<char>>
    decreases s.len() + 1 - p,
{
    if p < 0 || p >= s.len() {
        None
    } else {
        match line_heading(s.subrange(p, line_content_end(s, p))) {
            Some(v) => Some(v),
            None => {
                proof {
                    lemma_next_char_index(s, p, '\n');
                }
                heading_from(s, next_char_index(s, p, '\n') + 1)
            },
        }
    }
}

fn key_matches(kind: FieldKind, key: &Vec<char>) -> (r: bool)
    ensures
        r == field_keys(kind).contains(key@),
{
    let keys: Vec<Vec<char>> = match kind {
        FieldKind::ExternalId => vec![
            vec!['i', 'd'],
            vec!['t', 'a', 's', 'k', '_', 'i', 'd'],
            vec!['t', 'a', 's', 'k', 'I', 'd'],
        ],
        FieldKind::TodoAppId => vec![
            vec!['t', 'o', 'd', 'o', '_', 'a', 'p', 'p', '_', 'i', 'd'],
            vec!['t', 'o', 'd', 'o', 'A', 'p', 'p', 'I', 'd'],
        ],
        FieldKind::Title => vec![vec!['t', 'i', 't', 'l', 'e'], vec!['n', 'a', 'm', 'e']],
    };
    let ghost ks = field_keys(kind);
    assert(keys@.len() == ks.len());
    assert(forall|j: int| 0 <= j < ks.len() ==> #[trigger] keys@[j]@ == ks[j]);
    for j in 0..keys.len()
        invariant
            keys@.len() == ks.len(),
            ks == field_keys(kind),
            forall|q: int| 0 <= q < ks.len() ==> #[trigger] keys@[q]@ == ks[q],
            forall|q: int| 0 <= q < j ==> ks[q] != key@,
    {
        if chars_equal(&keys[j], key) {
            assert(ks[j as int] == key@);
            return true;
        }
    }
    assert(!ks.contains(key@)) by {
        if ks.contains(key@) {
            let q = choose|q: int| 0 <= q < ks.len() && ks[q] == key@;
        }
    }
    false
}

fn clean_scalar_exec(v: &Vec<char>, from: usize, to: usize) -> (r: Option<Vec<char>>)
    requires
        from <= to <= v@.len(),
    ensures
        opt_chars(r) == clean_scalar(v@.subrange(from as int, to as int)),
{
    let (a1, b1) = strip_range(v, from, to, Trimmed::WhiteSpace);
    let (a2, b2) = strip_range(v, a1, b1, Trimmed::DoubleQuote);
    let (a3, b3) = strip_range(v, a2, b2, Trimmed::SingleQuote);
    let (a4, b4) = strip_range(v, a3, b3, Trimmed::WhiteSpace);
    if a4 == b4 || v[a4] == '[' || v[a4] == '{' {
        None
    } else {
        Some(copy_range(v, a4, b4))
    }
}

fn line_field_exec(line: &Vec<char>, kind: FieldKind) -> (r: Option<Vec<char>>)
    ensures
        opt_chars(r) == line_field(line@, field_keys(kind)),
{
    let i = find_char(line, 0, ':');
    if i >= line.len() {
        return None;
    }
    let (a, b) = strip_range(line, 0, i, Trimmed::WhiteSpace);
    let key = copy_range(line, a, b);
    if key_matches(kind, &key) {
        clean_scalar_exec(line, i + 1, line.len())
    } else {
        None
    }
}

/// Bounds of the content of the line that starts at `p`, and the position of its end.
fn line_bounds(s: &Vec<char>, p: usize) -> (r: (usize, usize))
    requires
        p < s@.len(),
    ensures
        r.0 == line_content_end(s@, p as int),
        r.1 == next_char_index(s@, p as int, '\n'),
        p <= r.0 <= r.1 <= s@.len(),
{
    let e = find_char(s, p, '\n');
    let ce = if e < s.len() && e > p && s[e - 1] == '\r' {
        e - 1
    } else {
        e
    };
    (ce, e)
}

fn field_value(s: &Vec<char>, kind: FieldKind) -> (r: Option<Vec<char>>)
    ensures
        opt_chars(r) == field_from(s@, 0, field_keys(kind)),
{
    let mut p: usize = 0;
    while p < s.len()
        invariant
            p <= s@.len(),
            field_from(s@, 0, field_keys(kind)) == field_from(s@, p as int, field_keys(kind)),
        decreases s@.len() - p,
    {
        let (ce, e) = line_bounds(s, p);
        let line = copy_range(s, p, ce);
        match line_field_exec(&line, kind) {
            Some(v) => {
                return Some(v);
            },
            None => {},
        }
        if e >= s.len() {
            assert(field_from(s@, e + 1, field_keys(kind)) is None);
            return None;
        }
        p = e + 1;
    }
    None
}

fn line_heading_exec(line: &Vec<char>) -> (r: Option<Vec<char>>)
    ensures
        opt_chars(r) == line_heading(line@),
{
    if line.len() >= 2 && line[0] == '#' && line[1] == ' ' {
        let (a, b) = strip_range(line, 2, line.len(), Trimmed::WhiteSpace);
        if a < b {
            Some(copy_range(line, a, b))
        } else {
            None
        }
    } else {
        None
    }
}

fn first_heading(s: &Vec<char>) -> (r: Option<Vec<char>>)
    ensures
        opt_chars(r) == heading_from(s@, 0),
{
    let mut p: usize = 0;
    while p < s.len()
        invariant
            p <= s@.len(),
            heading_from(s@, 0) == heading_from(s@, p as int),
        decreases s@.len() - p,
    {
        let (ce, e) = line_bounds(s, p);
        let line = copy_range(s, p, ce);
        match line_heading_exec(&line) {
            Some(v) => {
                return Some(v);
            },
            None => {},
        }
        if e >= s.len() {
            assert(heading_from(s@, e + 1) is None);
            return None;
        }
        p = e + 1;
    }
    None
}

fn find_close_exec(s: &Vec<char>) -> (r: Option<usize>)
    ensures
        match r {
            Some(k) => find_close(s@, 0) == k as int && k + 5 <= s@.len(),
            None => find_close(s@, 0) == -1,
        },
{
    let mut p: usize = 0;
    while s.len() >= 5 && p <= s.len() - 5
        invariant
            find_close(s@, 0) == find_close(s@, p as int),
        decreases s@.len() - p,
    {
        if s[p] == '\n' && s[p + 1] == '-' && s[p + 2] == '-' && s[p + 3] == '-' && s[p + 4]
            == '\n' {
            assert(s@.subrange(p as int, p + 5) =~= frontmatter_close());
            return Some(p);
        }
        assert(s@.subrange(p as int, p + 5) != frontmatter_close()) by {
            if s@.subrange(p as int, p + 5) == frontmatter_close() {
                assert(s@.subrange(p as int, p + 5)[0] == s@[p as int]);
                assert(s@.subrange(p as int, p + 5)[1] == s@[p + 1]);
                assert(s@.subrange(p as int, p + 5)[2] == s@[p + 2]);
                assert(s@.subrange(p as int, p + 5)[3] == s@[p + 3]);
                assert(s@.subrange(p as int, p + 5)[4] == s@[p + 4]);
            }
        }
        p = p + 1;
    }
    None
}

/// The frontmatter (when the note has one) and the body, as character vectors.
fn split_note(s: &Vec<char>) -> (r: (Option<Vec<char>>, Vec<char>))
    ensures
        opt_chars(r.0) == split_frontmatter(s@).frontmatter,
        r.1@ == split_frontmatter(s@).body,
{
    if s.len() >= 4 && s[0] == '-' && s[1] == '-' && s[2] == '-' && s[3] == '\n' {
        assert(s@.subrange(0, 4) =~= frontmatter_open());
        let rest = copy_range(s, 4, s.len());
        match find_close_exec(&rest) {
            Some(k) => {
                let frontmatter = copy_range(&rest, 0, k);
                let body = copy_range(&rest, k + 5, rest.len());
                (Some(frontmatter), body)
            },
            None => (None, copy_range(s, 0, s.len())),
        }
    } else {
        assert(!(s@.len() >= 4 && s@.subrange(0, 4) == frontmatter_open())) by {
            if s@.len() >= 4 && s@.subrange(0, 4) == frontmatter_open() {
                assert(s@.subrange(0, 4)[0] == s@[0]);
                assert(s@.subrange(0, 4)[1] == s@[1]);
                assert(s@.subrange(0, 4)[2] == s@[2]);
                assert(s@.subrange(0, 4)[3] == s@[3]);
            }
        }
        assert(s@.subrange(0, s@.len() as int) =~= s@);
        (None, copy_range(s, 0, s.len()))
    }
}

#[derive(Debug, Clone, PartialEq, Eq)]
pub struct TaskNotesConfig {
    pub vault_path: String,
    pub tasks_glob: String,
    pub mode: SyncMode,
}

#[derive(Debug, Clone)]
pub struct TaskNotesProvider {
    config: TaskNotesConfig,
}

#[derive(Debug, Clone, PartialEq, Eq)]
pub struct TaskNotesDocument {
    pub external_id: Option<String>,
    pub todo_app_id: Option<String>,
    pub title: String,
    pub body: String,
    pub content_hash: String,
}

pub struct DocumentView {
    pub external_id: Option<Seq<char>>,
    pub todo_app_id: Option<Seq<char>>,
    pub title: Seq<char>,
    pub body: Seq<char>,
    pub content_hash: Seq<char>,
}

impl View for TaskNotesDocument {
    type V = DocumentView;

    open spec fn view(&self) -> DocumentView {
        DocumentView {
            external_id: opt_str_view(self.external_id),
            todo_app_id: opt_str_view(self.todo_app_id),
            title: self.title@,
            body: self.body@,
            content_hash: self.content_hash@,
        }
    }
}

#[derive(Debug, Clone, PartialEq, Eq)]
pub struct TaskNotesScannedDocument {
    pub relative_path: String,
    pub document: TaskNotesDocument,
}

#[derive(Debug, Clone, PartialEq, Eq)]
pub struct TaskNotesImportSummary {
    pub created: usize,
    pub updated: usize,
    pub linked: usize,
    pub conflicts: Vec<String>,
}

/// 64-bit FNV-1a of a byte sequence.
pub open spec fn fnv1a(bytes: Seq<u8>) -> u64
    decreases bytes.len(),
{
    if bytes.len() == 0 {
        0xcbf29ce484222325u64
    } else {
        (fnv1a(bytes.drop_last()) ^ (bytes.last() as u64)).wrapping_mul(0x100000001b3u64)
    }
}

pub open spec fn hex_digit(n: u8) -> char {
    if n < 10 {
        ((48 + n) as u8) as char
    } else {
        ((87 + n) as u8) as char
    }
}

/// Sixteen lowercase hexadecimal digits, most significant first.
pub open spec fn hex16(h: u64) -> Seq<char> {
    Seq::new(16, |i: int| hex_digit(((h >> ((60 - 4 * i) as u64)) & 0xf) as u8))
}

/// The content hash of a note: FNV-1a over its UTF-8 bytes, in hexadecimal.
pub open spec fn content_hash(contents: Seq<char>) -> Seq<char> {
    hex16(fnv1a(vstd::utf8::encode_utf8(contents)))
}

pub fn stable_content_hash(contents: &str) -> (r: String)
    ensures
        r@ == content_hash(contents@),
{
    let bytes = contents.as_bytes();
    let mut hash: u64 = 0xcbf29ce484222325;
    for i in 0..bytes.len()
        invariant
            bytes@ == vstd::utf8::encode_utf8(contents@),
            hash == fnv1a(bytes@.take(i as int)),
    {
        assert(bytes@.take(i + 1).drop_last() =~= bytes@.take(i as int));
        hash = (hash ^ (bytes[i] as u64)).wrapping_mul(0x100000001b3);
    }
    assert(bytes@.take(bytes@.len() as int) =~= bytes@);
    let mut digits: Vec<char> = Vec::new();
    for i in 0..16usize
        invariant
            digits@ == hex16(hash).take(i as int),
    {
        let shift: u64 = 60 - 4 * (i as u64);
        let masked: u64 = (hash >> shift) & 0xf;
        assert(masked < 16) by (bit_vector)
            requires
                masked == (hash >> shift) & 0xf,
        ;
        let n: u8 = masked as u8;
        let c = if n < 10 {
            (48 + n) as char
        } else {
            (87 + n) as char
        };
        assert(c == hex16(hash)[i as int]);
        digits.push(c);
        assert(digits@ =~= hex16(hash).take(i + 1));
    }
    assert(digits@ =~= hex16(hash));
    string_from_chars(digits.as_slice())
}

/// The stem `std::path::Path::file_stem` gives for a path, as text.
pub uninterp spec fn path_file_stem(path: Seq<char>) -> Option<Seq<char>>;

/// `Path::file_stem` of the path: the final component's name without its extension, or
/// none when the path has no file name. Its result is named by `path_file_stem`.
#[verifier::external_body]
fn file_stem(path: &str) -> (r: Option<String>)
    ensures
        opt_str_view(r) == path_file_stem(path@),
{
    match std::path::Path::new(path).file_stem() {
        Some(stem) => match stem.to_str() {
            Some(text) => Some(text.to_string()),
            None => None,
        },
        None => None,
    }
}

pub open spec fn untitled() -> Seq<char> {
    "Untitled task"@
}

/// The title a note's file name gives: its stem, or "Untitled task" when it has none.
pub open spec fn title_from_stem(stem: Option<Seq<char>>) -> Seq<char> {
    match stem {
        Some(s) => if s.len() > 0 {
            s
        } else {
            untitled()
        },
        None => untitled(),
    }
}

pub open spec fn frontmatter_field(parts: NoteParts, kind: FieldKind) -> Option<Seq<char>> {
    match parts.frontmatter {
        Some(f) => field_from(f, 0, field_keys(kind)),
        None => None,
    }
}

/// The document a note holds: ids and title from its frontmatter, the title otherwise from
/// its first heading or its file name, its trimmed body, and the hash of the whole note.
pub open spec fn parsed_document(file_stem: Option<Seq<char>>, contents: Seq<char>) -> DocumentView {
    let parts = split_frontmatter(contents);
    DocumentView {
        external_id: frontmatter_field(parts, FieldKind::ExternalId),
        todo_app_id: frontmatter_field(parts, FieldKind::TodoAppId),
        title: match frontmatter_field(parts, FieldKind::Title) {
            Some(t) => t,
            None => match heading_from(parts.body, 0) {
                Some(h) => h,
                None => title_from_stem(file_stem),
            },
        },
        body: strip(parts.body, Trimmed::WhiteSpace),
        content_hash: content_hash(contents),
    }
}

fn frontmatter_field_exec(frontmatter: &Option<Vec<char>>, kind: FieldKind) -> (r: Option<String>)
    ensures
        opt_str_view(r) == match opt_chars(*frontmatter) {
            Some(f) => field_from(f, 0, field_keys(kind)),
            None => None,
        },
{
    match frontmatter {
        Some(f) => match field_value(f, kind) {
            Some(v) => Some(string_from_chars(v.as_slice())),
            None => None,
        },
        None => None,
    }
}

/// The document in a note's text, given the stem of the note's file name.
pub fn parse_tasknotes_note(file_stem: Option<String>, contents: &str) -> (d: TaskNotesDocument)
    ensures
        d@ == parsed_document(opt_str_view(file_stem), contents@),
{
    let chars = str_chars(contents);
    let (frontmatter, body) = split_note(&chars);
    let external_id = frontmatter_field_exec(&frontmatter, FieldKind::ExternalId);
    let todo_app_id = frontmatter_field_exec(&frontmatter, FieldKind::TodoAppId);
    let title = match frontmatter_field_exec(&frontmatter, FieldKind::Title) {
        Some(t) => t,
        None => match first_heading(&body) {
            Some(h) => string_from_chars(h.as_slice()),
            None => match file_stem {
                Some(stem) => if stem.as_str().unicode_len() > 0 {
                    stem
                } else {
                    String::from_str("Untitled task")
                },
                None => String::from_str("Untitled task"),
            },
        },
    };
    let (a, b) = strip_range(&body, 0, body.len(), Trimmed::WhiteSpace);
    assert(body@.subrange(0, body@.len() as int) =~= body@);
    let trimmed = copy_range(&body, a, b);
    TaskNotesDocument {
        external_id,
        todo_app_id,
        title,
        body: string_from_chars(trimmed.as_slice()),
        content_hash: stable_content_hash(contents),
    }
}

pub fn parse_tasknotes_document(relative_path: &str, contents: &str) -> (d: TaskNotesDocument)
    ensures
        d@ == parsed_document(path_file_stem(relative_path@), contents@),
{
    parse_tasknotes_note(file_stem(relative_path), contents)
}

pub open spec fn identity_of(d: DocumentView, external_path: Seq<char>) -> (ProviderView, Option<Seq<char>>, Option<Seq<char>>, Option<Seq<char>>, Seq<char>, Seq<char>) {
    (ProviderView::TaskNotes, d.external_id, Some(external_path), d.todo_app_id, d.title, d.content_hash)
}

impl TaskNotesDocument {
    pub fn remote_identity(&self, external_path: &str) -> (r: RemoteTaskIdentity)
        ensures
            r.provider@ == ProviderView::TaskNotes,
            opt_str_view(r.external_id) == self@.external_id,
            opt_str_view(r.external_path) == Some(external_path@),
            opt_str_view(r.todo_app_id) == self@.todo_app_id,
            r.title@ == self@.title,
            r.content_hash@ == self@.content_hash,
    {
        RemoteTaskIdentity {
            provider: ExternalProvider::TaskNotes,
            external_id: clone_opt_string(&self.external_id),
            external_path: Some(String::from_str(external_path)),
            todo_app_id: clone_opt_string(&self.todo_app_id),
            title: self.title.clone(),
            content_hash: self.content_hash.clone(),
        }
    }
}

/// The id a task imported from a note gets when the note names no app id.
pub open spec fn generated_task_id(external_id: Option<Seq<char>>, relative_path: Seq<char>) -> Seq<char> {
    match external_id {
        Some(e) => "tasknotes-id-"@ + e,
        None => "tasknotes-path-"@ + content_hash(relative_path),
    }
}

fn concat(prefix: &str, value: &str) -> (r: String)
    ensures
        r@ == prefix@ + value@,
{
    let mut r = String::from_str(prefix);
    r.append(value);
    r
}

fn generated_task_id_exec(scanned: &TaskNotesScannedDocument) -> (r: String)
    ensures
        r@ == generated_task_id(scanned.document@.external_id, scanned.relative_path@),
{
    match &scanned.document.external_id {
        Some(external_id) => concat("tasknotes-id-", external_id.as_str()),
        None => {
            let hash = stable_content_hash(scanned.relative_path.as_str());
            concat("tasknotes-path-", hash.as_str())
        },
    }
}

pub open spec fn notes_of(body: Seq<char>) -> Option<Seq<char>> {
    if body.len() == 0 {
        None
    } else {
        Some(body)
    }
}

/// A task as a note's document leaves it: its title, its body as notes, updated now.
pub open spec fn applied_document(t: TaskView, d: DocumentView, now_ms: i64) -> TaskView {
    TaskView { title: d.title, notes: notes_of(d.body), updated_at_ms: now_ms, ..t }
}

pub fn apply_document_to_task(task: &mut Task, document: &TaskNotesDocument, now_ms: i64)
    ensures
        final(task)@ == applied_document(old(task)@, document@, now_ms),
{
    task.title = document.title.clone();
    task.notes = if document.body.as_str().unicode_len() == 0 {
        None
    } else {
        Some(document.body.clone())
    };
    task.updated_at_ms = now_ms;
}

/// The new task created for a note that matches no local task.
pub open spec fn document_task(relative_path: Seq<char>, d: DocumentView, now_ms: i64) -> TaskView {
    TaskView {
        id: match d.todo_app_id {
            Some(id) => id,
            None => generated_task_id(d.external_id, relative_path),
        },
        title: d.title,
        notes: notes_of(d.body),
        status: TaskStatus::Inbox,
        priority: Priority::Normal,
        due_at_ms: None,
        deadline_type: DeadlineType::NoDeadline,
        scheduled: None,
        estimate_minutes: None,
        energy_level: None,
        context: None,
        tags: seq![],
        project_id: None,
        created_at_ms: now_ms,
        updated_at_ms: now_ms,
        completed_at_ms: None,
        sort_order: now_ms,
    }
}

pub fn task_from_document(scanned: &TaskNotesScannedDocument, now_ms: i64) -> (t: Task)
    ensures
        t@ == document_task(scanned.relative_path@, scanned.document@, now_ms),
{
    let id = match &scanned.document.todo_app_id {
        Some(id) => id.clone(),
        None => generated_task_id_exec(scanned),
    };
    let mut task = Task {
        id,
        title: String::new(),
        notes: None,
        status: TaskStatus::Inbox,
        priority: Priority::Normal,
        due_at_ms: None,
        deadline_type: DeadlineType::NoDeadline,
        scheduled: None,
        estimate_minutes: None,
        energy_level: None,
        context: None,
        tags: Vec::new(),
        project_id: None,
        created_at_ms: now_ms,
        updated_at_ms: now_ms,
        completed_at_ms: None,
        sort_order: now_ms,
    };
    apply_document_to_task(&mut task, &scanned.document, now_ms);
    assert(strs_view(task.tags@) =~= Seq::<Seq<char>>::empty());
    task
}

/// The link that records a note as the remote side of a task.
pub open spec fn document_link(
    task_id: Seq<char>,
    relative_path: Seq<char>,
    d: DocumentView,
    now_ms: i64,
) -> LinkView {
    LinkView {
        id: "tasknotes:"@ + task_id,
        task_id,
        provider: ProviderView::TaskNotes,
        external_id: d.external_id,
        external_path: Some(relative_path),
        last_synced_at_ms: Some(now_ms),
        sync_hash: Some(d.content_hash),
        sync_state: SyncState::Linked,
    }
}

pub fn link_for_document(task_id: &str, scanned: &TaskNotesScannedDocument, now_ms: i64) -> (l:
    ExternalLink)
    ensures
        l@ == document_link(task_id@, scanned.relative_path@, scanned.document@, now_ms),
{
    ExternalLink {
        id: concat("tasknotes:", task_id),
        task_id: String::from_str(task_id),
        provider: ExternalProvider::TaskNotes,
        external_id: clone_opt_string(&scanned.document.external_id),
        external_path: Some(scanned.relative_path.clone()),
        last_synced_at_ms: Some(now_ms),
        sync_hash: Some(scanned.document.content_hash.clone()),
        sync_state: SyncState::Linked,
    }
}

fn prefixed_text(prefix: &str, value: &str) -> (r: String)
    ensures
        r@ == prefix@ + value@,
        has_prefix(r@, prefix@),
{
    let r = concat(prefix, value);
    assert(r@.subrange(0, prefix@.len() as int) =~= prefix@);
    r
}

/// Milliseconds since the Unix epoch, or a provider error when the clock reads earlier.
fn now_ms() -> (r: Result<i64, SyncError>)
    ensures
        r matches Err(e) ==> (e matches SyncError::Provider(m) && has_prefix(
            m@,
            "system clock is before Unix epoch: "@,
        )),
{
    match crate::clock::unix_millis() {
        Ok(ms) => Ok(ms),
        Err(text) => Err(
            SyncError::Provider(
                prefixed_text("system clock is before Unix epoch: ", text.as_str()),
            ),
        ),
    }
}

/// Where an import stands: finished, or waiting for the vault to be read at `now_ms`.
#[derive(Debug, PartialEq, Eq)]
pub enum ImportStep {
    Done(Result<Vec<Task>, SyncError>),
    ScanVault { vault_path: String, now_ms: i64 },
}

impl View for TaskNotesProvider {
    type V = TaskNotesConfig;

    closed spec fn view(&self) -> TaskNotesConfig {
        self.config
    }
}

/// The tasks a scanned vault yields, one per note, in the notes' order.
pub open spec fn documents_tasks(documents: Seq<TaskNotesScannedDocument>, now_ms: i64) -> Seq<
    TaskView,
> {
    documents.map_values(
        |d: TaskNotesScannedDocument| document_task(d.relative_path@, d.document@, now_ms),
    )
}

pub open spec fn task_views(tasks: Seq<Task>) -> Seq<TaskView> {
    tasks.map_values(|t: Task| t@)
}

/// One new task per scanned note, in order.
pub fn tasks_from_documents(documents: &Vec<TaskNotesScannedDocument>, now_ms: i64) -> (tasks: Vec<
    Task,
>)
    ensures
        task_views(tasks@) == documents_tasks(documents@, now_ms),
{
    let mut tasks: Vec<Task> = Vec::new();
    let mut i: usize = 0;
    while i < documents.len()
        invariant
            i <= documents@.len(),
            tasks@.len() == i,
            forall|j: int| 0 <= j < i ==> (#[trigger] tasks@[j])@ == document_task(
                documents@[j].relative_path@,
                documents@[j].document@,
                now_ms,
            ),
        decreases documents@.len() - i,
    {
        let task = task_from_document(&documents[i], now_ms);
        tasks.push(task);
        i = i + 1;
    }
    assert(task_views(tasks@) =~= documents_tasks(documents@, now_ms));
    tasks
}

impl TaskNotesProvider {
    pub fn new(config: TaskNotesConfig) -> (p: Self)
        ensures
            p@ == config,
    {
        Self { config }
    }

    pub fn config(&self) -> (r: &TaskNotesConfig)
        ensures
            *r == self@,
    {
        &self.config
    }

    pub fn mode(&self) -> (r: SyncMode)
        ensures
            r == self@.mode,
    {
        self.config.mode
    }

    /// Pushing is accepted only in two-way mode.
    pub fn push_tasks(&self, tasks: &[Task]) -> (r: Result<(), SyncError>)
        ensures
            r is Ok <==> self@.mode == SyncMode::TwoWay,
            r matches Err(e) ==> e matches SyncError::Disabled,
    {
        match self.config.mode {
            SyncMode::TwoWay => Ok(()),
            SyncMode::Off | SyncMode::ImportOnly => Err(SyncError::Disabled),
        }
    }

    /// Starts an import: refused when sync is off, else the vault is to be scanned at the
    /// current time (or the clock's error ends it).
    pub fn import_tasks(&self) -> (r: ImportStep)
        ensures
            self@.mode == SyncMode::Off ==> r == ImportStep::Done(
                Err::<Vec<Task>, SyncError>(SyncError::Disabled),
            ),
            self@.mode != SyncMode::Off ==> match r {
                ImportStep::ScanVault { vault_path, now_ms: _ } => vault_path@
                    == self@.vault_path@,
                ImportStep::Done(Err(SyncError::Provider(m))) => has_prefix(
                    m@,
                    "system clock is before Unix epoch: "@,
                ),
                _ => false,
            },
    {
        if self.config.mode == SyncMode::Off {
            return ImportStep::Done(Err(SyncError::Disabled));
        }
        match now_ms() {
            Ok(now_ms) => ImportStep::ScanVault {
                vault_path: self.config.vault_path.clone(),
                now_ms,
            },
            Err(error) => ImportStep::Done(Err(error)),
        }
    }

    /// Finishes an import with the vault's scan: one new task per note.
    pub fn finish_import(
        now_ms: i64,
        scanned: Result<Vec<TaskNotesScannedDocument>, SyncError>,
    ) -> (r: Result<Vec<Task>, SyncError>)
        ensures
            match scanned {
                Ok(documents) => r matches Ok(tasks) && task_views(tasks@) == documents_tasks(
                    documents@,
                    now_ms,
                ),
                Err(e) => r == Err::<Vec<Task>, SyncError>(e),
            },
    {
        match scanned {
            Ok(documents) => Ok(tasks_from_documents(&documents, now_ms)),
            Err(error) => Err(error),
        }
    }

    /// A preview lists every imported task as a creation.
    pub fn preview_of(imported: Result<Vec<Task>, SyncError>) -> (r: Result<SyncPreview, SyncError>)
        ensures
            match imported {
                Ok(tasks) => r matches Ok(p) && p.creates == tasks && p.updates@.len() == 0
                    && p.conflicts@.len() == 0,
                Err(e) => r == Err::<SyncPreview, SyncError>(e),
            },
    {
        match imported {
            Ok(tasks) => Ok(SyncPreview { creates: tasks, updates: Vec::new(), conflicts: Vec::new() }),
            Err(error) => Err(error),
        }
    }
}

fn join3(a: &str, b: &str, c: &str) -> (r: String)
    ensures
        r@ == a@ + b@ + c@,
{
    let mut r = String::from_str(a);
    r.append(b);
    r.append(c);
    r
}

/// What a vault scan does with one directory entry.
#[derive(Debug, Clone, Copy, PartialEq, Eq)]
pub enum VaultEntry {
    /// A directory to scan in turn.
    Descend,
    /// A Markdown note to read and parse.
    Read,
    /// Anything else.
    Skip,
}

pub open spec fn vault_entry(
    is_dir: bool,
    is_file: bool,
    file_name: Seq<char>,
    extension: Option<Seq<char>>,
) -> VaultEntry {
    if is_dir {
        if file_name == ".obsidian"@ {
            VaultEntry::Skip
        } else {
            VaultEntry::Descend
        }
    } else if is_file && extension == Some("md"@) {
        VaultEntry::Read
    } else {
        VaultEntry::Skip
    }
}

/// Decides how a vault scan treats an entry: it descends into directories other than
/// Obsidian's own settings directory and reads files with the `md` extension.
pub fn vault_entry_action(
    is_dir: bool,
    is_file: bool,
    file_name: &str,
    extension: Option<&str>,
) -> (r: VaultEntry)
    ensures
        r == vault_entry(
            is_dir,
            is_file,
            file_name@,
            match extension {
                Some(e) => Some(e@),
                None => None,
            },
        ),
{
    if is_dir {
        let settings = str_chars(".obsidian");
        if chars_equal(&str_chars(file_name), &settings) {
            VaultEntry::Skip
        } else {
            VaultEntry::Descend
        }
    } else if is_file {
        match extension {
            Some(e) => {
                let md = str_chars("md");
                if chars_equal(&str_chars(e), &md) {
                    VaultEntry::Read
                } else {
                    VaultEntry::Skip
                }
            },
            None => VaultEntry::Skip,
        }
    } else {
        VaultEntry::Skip
    }
}

/// Where a note at `path` goes in `s`: before the first note whose path sorts after it.
pub open spec fn path_insert_index(s: Seq<TaskNotesScannedDocument>, path: Seq<char>) -> int
    decreases s.len(),
{
    if s.len() == 0 {
        0
    } else if chars_lt(path, s[0].relative_path@) {
        0
    } else {
        1 + path_insert_index(s.drop_first(), path)
    }
}

/// The notes ordered by path, each inserted after the notes placed before it whose path is
/// not greater (so notes with equal paths keep their order).
pub open spec fn sorted_by_path(s: Seq<TaskNotesScannedDocument>) -> Seq<TaskNotesScannedDocument>
    decreases s.len(),
{
    if s.len() == 0 {
        s
    } else {
        let r = sorted_by_path(s.drop_last());
        r.insert(path_insert_index(r, s.last().relative_path@), s.last())
    }
}

pub open spec fn ordered_by_path(s: Seq<TaskNotesScannedDocument>) -> bool {
    forall|i: int, j: int|
        0 <= i < j < s.len() ==> !chars_lt(
            #[trigger] s[j].relative_path@,
            #[trigger] s[i].relative_path@,
        )
}

proof fn lemma_path_insert_index(s: Seq<TaskNotesScannedDocument>, path: Seq<char>)
    ensures
        0 <= path_insert_index(s, path) <= s.len(),
        forall|k: int|
            0 <= k < path_insert_index(s, path) ==> !chars_lt(path, #[trigger] s[k].relative_path@),
        path_insert_index(s, path) < s.len() ==> chars_lt(
            path,
            s[path_insert_index(s, path)].relative_path@,
        ),
    decreases s.len(),
{
    if s.len() > 0 && !chars_lt(path, s[0].relative_path@) {
        lemma_path_insert_index(s.drop_first(), path);
        assert forall|k: int| 0 <= k < path_insert_index(s, path) implies !chars_lt(
            path,
            #[trigger] s[k].relative_path@,
        ) by {
            if k > 0 {
                assert(s[k] == s.drop_first()[k - 1]);
            }
        }
    }
}

fn path_insert_index_exec(r: &Vec<TaskNotesScannedDocument>, path: &Vec<char>) -> (p: usize)
    ensures
        p == path_insert_index(r@, path@),
{
    let mut p: usize = 0;
    assert(r@.skip(0) =~= r@);
    while p < r.len()
        invariant
            p <= r@.len(),
            path_insert_index(r@, path@) == p + path_insert_index(r@.skip(p as int), path@),
        decreases r@.len() - p,
    {
        let other = str_chars(r[p].relative_path.as_str());
        if chars_lt_exec(path, &other) {
            return p;
        }
        assert(r@.skip(p as int).drop_first() =~= r@.skip(p + 1));
        p = p + 1;
    }
    p
}

/// Orders scanned notes by their path within the vault; notes with equal paths keep their
/// order.
pub fn sort_scanned_documents(documents: Vec<TaskNotesScannedDocument>) -> (r: Vec<
    TaskNotesScannedDocument,
>)
    ensures
        r@ == sorted_by_path(documents@),
{
    let ghost all = documents@;
    let mut rest = documents;
    let mut r: Vec<TaskNotesScannedDocument> = Vec::new();
    assert(all.take(0) =~= Seq::<TaskNotesScannedDocument>::empty());
    assert(all.skip(0) =~= all);
    while rest.len() > 0
        invariant
            rest@.len() <= all.len(),
            rest@ == all.skip(all.len() - rest@.len()),
            r@ == sorted_by_path(all.take(all.len() - rest@.len())),
        decreases rest@.len(),
    {
        let ghost k = all.len() - rest@.len();
        let d = rest.remove(0);
        assert(rest@ =~= all.skip(k + 1));
        assert(all.take(k + 1).drop_last() =~= all.take(k));
        let path = str_chars(d.relative_path.as_str());
        let p = path_insert_index_exec(&r, &path);
        proof {
            lemma_path_insert_index(r@, path@);
        }
        r.insert(p, d);
    }
    assert(all.take(all.len() as int) =~= all);
    r
}

/// Sorting scanned notes orders them by path and keeps every note: the result is a
/// rearrangement of the input, in which no note's path sorts before an earlier one's.
pub proof fn lemma_sorted_notes_are_ordered(s: Seq<TaskNotesScannedDocument>)
    ensures
        ordered_by_path(sorted_by_path(s)),
        sorted_by_path(s).to_multiset() == s.to_multiset(),
    decreases s.len(),
{
    broadcast use vstd::seq_lib::to_multiset_insert, vstd::seq_lib::to_multiset_build;

    if s.len() > 0 {
        let rest = s.drop_last();
        lemma_sorted_notes_are_ordered(rest);
        let r = sorted_by_path(rest);
        let d = s.last();
        let path = d.relative_path@;
        lemma_path_insert_index(r, path);
        let idx = path_insert_index(r, path);
        let n = r.insert(idx, d);
        assert(n == sorted_by_path(s));
        assert forall|i: int, j: int| 0 <= i < j < n.len() implies !chars_lt(
            #[trigger] n[j].relative_path@,
            #[trigger] n[i].relative_path@,
        ) by {
            if i == idx {
                assert(n[j] == r[j - 1]);
                lemma_chars_lt_order(r[j - 1].relative_path@, path, r[idx].relative_path@);
                lemma_chars_lt_order(path, r[idx].relative_path@, r[j - 1].relative_path@);
                if j - 1 > idx {
                    assert(!chars_lt(r[j - 1].relative_path@, r[idx].relative_path@));
                }
            } else if j == idx {
                assert(n[i] == r[i]);
            } else {
                let i0 = if i < idx { i } else { i - 1 };
                let j0 = if j < idx { j } else { j - 1 };
                assert(n[i] == r[i0]);
                assert(n[j] == r[j0]);
            }
        }
        assert(s =~= rest.push(d));
    }
}

/// What importing one note does to the store.
pub enum ImportAction {
    /// The note updates this local task and rewrites its link.
    Update(Task, ExternalLink),
    /// The note becomes this new task, with this link.
    Create(Task, ExternalLink),
    /// The note is left alone; the message is recorded as a conflict.
    Conflict(String),
}

pub enum ImportActionView {
    Update(TaskView, LinkView),
    Create(TaskView, LinkView),
    Conflict(Seq<char>),
}

impl View for ImportAction {
    type V = ImportActionView;

    open spec fn view(&self) -> ImportActionView {
        match self {
            ImportAction::Update(t, l) => ImportActionView::Update(t@, l@),
            ImportAction::Create(t, l) => ImportActionView::Create(t@, l@),
            ImportAction::Conflict(m) => ImportActionView::Conflict(m@),
        }
    }
}

/// The action for a note at `path` whose identity matched as `matched`; `found` is what the
/// store holds under the linked task's id.
pub open spec fn import_action(
    path: Seq<char>,
    d: DocumentView,
    matched: MatchView,
    found: Option<TaskView>,
    now_ms: i64,
) -> ImportActionView {
    match matched {
        MatchView::Linked(task_id) => match found {
            Some(t) => {
                let updated = applied_document(t, d, now_ms);
                ImportActionView::Update(updated, document_link(updated.id, path, d, now_ms))
            },
            None => ImportActionView::Conflict(
                "link points to missing local task "@ + task_id + " for "@ + path,
            ),
        },
        MatchView::NewRemote => {
            let created = document_task(path, d, now_ms);
            ImportActionView::Create(created, document_link(created.id, path, d, now_ms))
        },
        MatchView::PossibleTitleMatch(_) => ImportActionView::Conflict(
            "possible title-only match for "@ + path + "; refusing automatic link"@,
        ),
        MatchView::Conflict(message) => ImportActionView::Conflict(path + ": "@ + message),
    }
}

pub open spec fn opt_task_view(t: Option<Task>) -> Option<TaskView> {
    match t {
        Some(t) => Some(t@),
        None => None,
    }
}

/// Decides what one note does to the store, from how its identity matched and, for a
/// linked note, the task that the store returned for the linked id.
pub fn plan_document_import(
    scanned: &TaskNotesScannedDocument,
    matched: IdentityMatch,
    found: Option<Task>,
    now_ms: i64,
) -> (a: ImportAction)
    ensures
        a@ == import_action(
            scanned.relative_path@,
            scanned.document@,
            matched@,
            opt_task_view(found),
            now_ms,
        ),
{
    match matched {
        IdentityMatch::Linked(task_id) => match found {
            Some(mut task) => {
                apply_document_to_task(&mut task, &scanned.document, now_ms);
                let link = link_for_document(task.id.as_str(), scanned, now_ms);
                ImportAction::Update(task, link)
            },
            None => {
                let mut message = join3(
                    "link points to missing local task ",
                    task_id.as_str(),
                    " for ",
                );
                message.append(scanned.relative_path.as_str());
                ImportAction::Conflict(message)
            },
        },
        IdentityMatch::NewRemote => {
            let task = task_from_document(scanned, now_ms);
            let link = link_for_document(task.id.as_str(), scanned, now_ms);
            ImportAction::Create(task, link)
        },
        IdentityMatch::PossibleTitleMatch(_) => ImportAction::Conflict(
            join3(
                "possible title-only match for ",
                scanned.relative_path.as_str(),
                "; refusing automatic link",
            ),
        ),
        IdentityMatch::Conflict(message) => ImportAction::Conflict(
            join3(scanned.relative_path.as_str(), ": ", message.as_str()),
        ),
    }
}

/// The counters and conflict messages of an import summary.
pub struct SummaryView {
    pub created: int,
    pub updated: int,
    pub linked: int,
    pub conflicts: Seq<Seq<char>>,
}

impl View for TaskNotesImportSummary {
    type V = SummaryView;

    open spec fn view(&self) -> SummaryView {
        SummaryView {
            created: self.created as int,
            updated: self.updated as int,
            linked: self.linked as int,
            conflicts: strs_view(self.conflicts@),
        }
    }
}

pub open spec fn empty_summary() -> SummaryView {
    SummaryView { created: 0, updated: 0, linked: 0, conflicts: seq![] }
}

/// The summary after one more note's action: an update or a creation is counted, a conflict's
/// message is appended.
pub open spec fn tallied(s: SummaryView, a: ImportActionView) -> SummaryView {
    match a {
        ImportActionView::Update(_, _) => SummaryView { updated: s.updated + 1, ..s },
        ImportActionView::Create(_, _) => SummaryView { created: s.created + 1, ..s },
        ImportActionView::Conflict(m) => SummaryView { conflicts: s.conflicts.push(m), ..s },
    }
}

/// Counts one note's action in the summary.
pub fn record_action(summary: TaskNotesImportSummary, action: &ImportAction) -> (r:
    TaskNotesImportSummary)
    requires
        action is Update ==> summary.updated < usize::MAX,
        action is Create ==> summary.created < usize::MAX,
    ensures
        r@ == tallied(summary@, action@),
{
    let mut summary = summary;
    match action {
        ImportAction::Update(_, _) => {
            summary.updated = summary.updated + 1;
        },
        ImportAction::Create(_, _) => {
            summary.created = summary.created + 1;
        },
        ImportAction::Conflict(message) => {
            let ghost before = summary.conflicts@;
            summary.conflicts.push(message.clone());
            assert(strs_view(summary.conflicts@) =~= strs_view(before).push(message@));
        },
    }
    summary
}

/// `r` is the identity of the note at `path` with document `d`.
pub open spec fn is_note_identity(r: RemoteTaskIdentity, path: Seq<char>, d: DocumentView) -> bool {
    &&& r.provider@ == ProviderView::TaskNotes
    &&& opt_str_view(r.external_id) == d.external_id
    &&& opt_str_view(r.external_path) == Some(path)
    &&& opt_str_view(r.todo_app_id) == d.todo_app_id
    &&& r.title@ == d.title
    &&& r.content_hash@ == d.content_hash
}

pub open spec fn note_identity(path: Seq<char>, d: DocumentView) -> RemoteTaskIdentity {
    choose|r: RemoteTaskIdentity| is_note_identity(r, path, d)
}

proof fn lemma_note_identity_match(
    r: RemoteTaskIdentity,
    path: Seq<char>,
    d: DocumentView,
    links: Seq<ExternalLink>,
    tasks: Seq<Task>,
)
    requires
        is_note_identity(r, path, d),
    ensures
        identity_match(note_identity(path, d), links, tasks) == identity_match(r, links, tasks),
{
    let q = note_identity(path, d);
    assert(is_note_identity(q, path, d));
    match (r.todo_app_id, q.todo_app_id) {
        (Some(a), Some(b)) => {
            assert(a@ == b@);
        },
        _ => {},
    }
    match (r.external_id, q.external_id) {
        (Some(a), Some(b)) => {
            assert(a@ == b@);
        },
        _ => {},
    }
    assert(opt_str_view(r.external_path) == opt_str_view(q.external_path));
}

/// What a store holds: its tasks and its links, by id.
pub struct StoreView {
    pub tasks: Map<Seq<char>, TaskView>,
    pub links: Map<Seq<char>, LinkView>,
}

pub open spec fn store_view<S: TaskStore>(s: S) -> StoreView {
    StoreView { tasks: s.task_map(), links: s.link_map() }
}

/// The tasks and links the store listed while one note was imported.
pub struct NoteListing {
    pub tasks: Seq<Task>,
    pub links: Seq<ExternalLink>,
}

/// The listing is one the store can give in state `st`: every task in listing order, every
/// link once.
pub open spec fn listing_of(st: StoreView, l: NoteListing) -> bool {
    &&& is_listing(st.tasks, None, l.tasks)
    &&& links_listed(st.links, |x: LinkView| true, l.links)
}

/// The action for a note, matched against the listing and, when linked, against the task
/// stored under the linked id.
pub open spec fn note_action(
    st: StoreView,
    scanned: TaskNotesScannedDocument,
    now_ms: i64,
    l: NoteListing,
) -> ImportActionView {
    let path = scanned.relative_path@;
    let d = scanned.document@;
    let m = identity_match(note_identity(path, d), l.links, l.tasks);
    let found = match m {
        MatchView::Linked(id) => if st.tasks.contains_key(id) {
            Some(st.tasks[id])
        } else {
            None
        },
        _ => None,
    };
    import_action(path, d, m, found, now_ms)
}

/// The store after an action: an update or a creation stores its task and its link.
pub open spec fn after_action(st: StoreView, a: ImportActionView) -> StoreView {
    match a {
        ImportActionView::Update(t, l) => StoreView {
            tasks: st.tasks.insert(t.id, t),
            links: st.links.insert(l.id, l),
        },
        ImportActionView::Create(t, l) => StoreView {
            tasks: st.tasks.insert(t.id, t),
            links: st.links.insert(l.id, l),
        },
        ImportActionView::Conflict(_) => st,
    }
}

/// Importing the notes in turn from state `st`, with `ls` the listings the store gave for
/// each: the summary and the state at the end, or none when a listing is not one the store
/// could give.
pub open spec fn import_run(
    st: StoreView,
    docs: Seq<TaskNotesScannedDocument>,
    now_ms: i64,
    ls: Seq<NoteListing>,
) -> Option<(SummaryView, StoreView)>
    decreases docs.len(),
{
    if docs.len() == 0 {
        Some((empty_summary(), st))
    } else {
        match import_run(st, docs.drop_last(), now_ms, ls.drop_last()) {
            None => None,
            Some((s, cur)) => {
                let l = ls.last();
                if listing_of(cur, l) {
                    let a = note_action(cur, docs.last(), now_ms, l);
                    Some((tallied(s, a), after_action(cur, a)))
                } else {
                    None
                }
            },
        }
    }
}

/// An import that stopped on a store error while at note `k`: the notes before it were
/// imported in full, and the store ends there or, when the failure came at the link's write,
/// with note `k`'s task written as well.
pub open spec fn import_stopped(
    st: StoreView,
    docs: Seq<TaskNotesScannedDocument>,
    now_ms: i64,
    k: int,
    ls: Seq<NoteListing>,
    fin: StoreView,
) -> bool {
    match import_run(st, docs.take(k), now_ms, ls.take(k)) {
        None => false,
        Some((_, cur)) => {
            ||| fin == cur
            ||| listing_of(cur, ls[k]) && match note_action(cur, docs[k], now_ms, ls[k]) {
                ImportActionView::Update(t, _) => fin == StoreView {
                    tasks: cur.tasks.insert(t.id, t),
                    links: cur.links,
                },
                ImportActionView::Create(t, _) => fin == StoreView {
                    tasks: cur.tasks.insert(t.id, t),
                    links: cur.links,
                },
                ImportActionView::Conflict(_) => false,
            }
        },
    }
}

/// Imports scanned notes into the store. A note that matches a local task updates it and
/// rewrites its link, one that matches nothing creates a task and its link; a title-only
/// match or an ambiguous one is recorded as a conflict and nothing is written. The first
/// store error ends the import and is returned; what was written before it stays.
pub fn import_tasknotes_documents<S: TaskStore + ExternalLinkStore>(
    store: &mut S,
    documents: &[TaskNotesScannedDocument],
    now_ms: i64,
) -> (r: Result<TaskNotesImportSummary, StoreError>)
    ensures
        r matches Ok(summary) ==> exists|ls: Seq<NoteListing>|
            ls.len() == documents@.len() && #[trigger] import_run(
                store_view(*old(store)),
                documents@,
                now_ms,
                ls,
            ) == Some((summary@, store_view(*final(store)))),
        r is Err ==> exists|k: int, ls: Seq<NoteListing>|
            0 <= k < documents@.len() && ls.len() == k + 1 && #[trigger] import_stopped(
                store_view(*old(store)),
                documents@,
                now_ms,
                k,
                ls,
                store_view(*final(store)),
            ),
        r matches Ok(summary) ==> summary.linked == 0 && summary.created + summary.updated
            + summary.conflicts@.len() == documents@.len(),
        documents@.len() == 0 ==> (r matches Ok(summary) && summary.created == 0
            && summary.updated == 0 && summary.conflicts@.len() == 0),
        documents@.len() == 0 ==> *final(store) == *old(store),
{
    let mut summary = TaskNotesImportSummary {
        created: 0,
        updated: 0,
        linked: 0,
        conflicts: Vec::new(),
    };
    let ghost docs = documents@;
    let ghost st0 = store_view(*store);
    let ghost mut ls: Seq<NoteListing> = Seq::empty();
    proof {
        assert(docs.take(0) =~= Seq::<TaskNotesScannedDocument>::empty());
        assert(strs_view(summary.conflicts@) =~= Seq::<Seq<char>>::empty());
    }
    let mut i: usize = 0;
    while i < documents.len()
        invariant
            docs == documents@,
            st0 == store_view(*old(store)),
            i <= docs.len(),
            summary.linked == 0,
            summary.created + summary.updated + summary.conflicts@.len() == i,
            ls.len() == i,
            import_run(st0, docs.take(i as int), now_ms, ls) == Some((summary@, store_view(*store))),
            documents@.len() == 0 ==> *store == *old(store),
        decreases documents@.len() - i,
    {
        let scanned = &documents[i];
        let ghost path = scanned.relative_path@;
        let ghost d = scanned.document@;
        let ghost cur = store_view(*store);
        proof {
            assert(ls.push(NoteListing { tasks: seq![], links: seq![] }).take(i as int) =~= ls);
        }
        let local_tasks = match store.list_tasks() {
            Ok(tasks) => tasks,
            Err(e) => {
                proof {
                    let w = ls.push(NoteListing { tasks: seq![], links: seq![] });
                    assert(import_stopped(st0, docs, now_ms, i as int, w, store_view(*store)));
                }
                return Err(e);
            },
        };
        let links = match store.list_external_links() {
            Ok(links) => links,
            Err(e) => {
                proof {
                    let w = ls.push(NoteListing { tasks: seq![], links: seq![] });
                    assert(import_stopped(st0, docs, now_ms, i as int, w, store_view(*store)));
                }
                return Err(e);
            },
        };
        let ghost l = NoteListing { tasks: local_tasks@, links: links@ };
        let ghost w = ls.push(l);
        proof {
            assert(w.take(i as int) =~= ls);
            assert(listing_of(cur, l));
        }
        let identity = scanned.document.remote_identity(scanned.relative_path.as_str());
        let matched = match_remote_identity(&identity, links.as_slice(), local_tasks.as_slice());
        proof {
            lemma_note_identity_match(identity, path, d, links@, local_tasks@);
        }
        let found = match &matched {
            IdentityMatch::Linked(task_id) => match store.get_task(task_id) {
                Ok(found) => found,
                Err(e) => {
                    proof {
                        assert(import_stopped(st0, docs, now_ms, i as int, w, store_view(*store)));
                    }
                    return Err(e);
                },
            },
            _ => None,
        };
        let action = plan_document_import(scanned, matched, found, now_ms);
        let ghost act = action@;
        proof {
            assert(act == note_action(cur, docs[i as int], now_ms, l));
        }
        summary = record_action(summary, &action);
        assert(summary.conflicts@.len() == summary@.conflicts.len());
        match action {
            ImportAction::Update(task, link) | ImportAction::Create(task, link) => {
                match store.upsert_task(task) {
                    Ok(()) => {},
                    Err(e) => {
                        proof {
                            assert(import_stopped(st0, docs, now_ms, i as int, w, store_view(*store)));
                        }
                        return Err(e);
                    },
                }
                match store.upsert_external_link(link) {
                    Ok(()) => {},
                    Err(e) => {
                        proof {
                            assert(store_view(*store).links =~= cur.links);
                            assert(import_stopped(st0, docs, now_ms, i as int, w, store_view(*store)));
                        }
                        return Err(e);
                    },
                }
            },
            ImportAction::Conflict(_) => {},
        }
        proof {
            assert(docs.take(i + 1).drop_last() =~= docs.take(i as int));
            assert(w.drop_last() =~= ls);
            assert(store_view(*store) == after_action(cur, act));
            ls = w;
        }
        i = i + 1;
    }
    proof {
        assert(docs.take(i as int) =~= docs);
    }
    Ok(summary)
}

/// A note imported into an empty store is found again on the next import: its identity,
/// matched against the task and the link that the first import wrote, links it back to that
/// task (so the next import updates instead of creating a duplicate). This holds wherever the
/// note has moved when it carries an external id or an app id.
pub proof fn lemma_imported_note_links_back(
    remote: RemoteTaskIdentity,
    link: ExternalLink,
    task: Task,
    first_path: Seq<char>,
    path: Seq<char>,
    d: DocumentView,
    now_ms: i64,
)
    requires
        task@ == document_task(first_path, d, now_ms),
        link@ == document_link(task@.id, first_path, d, now_ms),
        remote.provider@ == ProviderView::TaskNotes,
        opt_str_view(remote.external_id) == d.external_id,
        opt_str_view(remote.external_path) == Some(path),
        opt_str_view(remote.todo_app_id) == d.todo_app_id,
        path == first_path || d.external_id is Some || d.todo_app_id is Some,
    ensures
        identity_match(remote, seq![link], seq![task]) == MatchView::Linked(task@.id),
{
    let tasks = seq![task];
    let links = seq![link];
    assert(tasks =~= Seq::<Task>::empty().push(task));
    assert(links =~= Seq::<ExternalLink>::empty().push(link));
    match remote.todo_app_id {
        Some(a) => {
            let pred = |t: Task| t.id@ == a@;
            Seq::<Task>::empty().lemma_filter_push(task, pred);
            assert(Seq::<Task>::empty().filter(pred) =~= Seq::<Task>::empty());
        },
        None => {
            match remote.external_id {
                Some(e) => {
                    let pred = |l: ExternalLink| link_has_key(l, remote.provider@, false, e@);
                    Seq::<ExternalLink>::empty().lemma_filter_push(link, pred);
                    assert(Seq::<ExternalLink>::empty().filter(pred) =~= Seq::<ExternalLink>::empty());
                },
                None => {
                    let pred = |l: ExternalLink| link_has_key(l, remote.provider@, true, path);
                    Seq::<ExternalLink>::empty().lemma_filter_push(link, pred);
                    assert(Seq::<ExternalLink>::empty().filter(pred) =~= Seq::<ExternalLink>::empty());
                    let ip = remote.external_path->0;
                    assert(ip@ == path);
                },
            }
        },
    }
}

/// A listing of a store that holds one task and one link lists exactly those two.
proof fn lemma_listing_of_one(st: StoreView, l: NoteListing, t: TaskView, k: LinkView)
    requires
        st.tasks == Map::<Seq<char>, TaskView>::empty().insert(t.id, t),
        st.links == Map::<Seq<char>, LinkView>::empty().insert(k.id, k),
        listing_of(st, l),
    ensures
        l.tasks.len() == 1 && l.tasks[0]@ == t,
        l.links.len() == 1 && l.links[0]@ == k,
{
    assert(st.tasks.contains_key(t.id));
    let i = choose|i: int| 0 <= i < l.tasks.len() && (#[trigger] l.tasks[i])@.id == t.id;
    assert(l.tasks[i]@ == t);
    if l.tasks.len() > 1 {
        assert(st.tasks.contains_key(l.tasks[0]@.id));
        assert(st.tasks.contains_key(l.tasks[1]@.id));
        assert(l.tasks[0]@ == t && l.tasks[1]@ == t);
        assert(listed_before(l.tasks[0]@, l.tasks[1]@));
        lemma_listed_order(t, t, t);
    }
    assert(st.links.contains_key(k.id));
    let j = choose|j: int| 0 <= j < l.links.len() && (#[trigger] l.links[j])@.id == k.id;
    assert(l.links[j]@ == k);
    if l.links.len() > 1 {
        assert(st.links.contains_key(l.links[0]@.id));
        assert(st.links.contains_key(l.links[1]@.id));
        assert(l.links[0]@.id != l.links[1]@.id);
    }
}

/// Importing a note into an empty store creates one task and one link. Importing the same
/// note again (in the same place, or anywhere when it carries an external id or an app id)
/// updates that task and rewrites that link: no second task or link appears.
pub proof fn lemma_reimport_updates_without_duplicates(
    first: TaskNotesScannedDocument,
    again: TaskNotesScannedDocument,
    remote: RemoteTaskIdentity,
    now1: i64,
    now2: i64,
    ls1: Seq<NoteListing>,
    ls2: Seq<NoteListing>,
    st0: StoreView,
    s1: SummaryView,
    st1: StoreView,
    s2: SummaryView,
    st2: StoreView,
)
    requires
        st0.tasks == Map::<Seq<char>, TaskView>::empty(),
        st0.links == Map::<Seq<char>, LinkView>::empty(),
        again.document@ == first.document@,
        again.relative_path@ == first.relative_path@ || first.document@.external_id is Some
            || first.document@.todo_app_id is Some,
        is_note_identity(remote, again.relative_path@, again.document@),
        import_run(st0, seq![first], now1, ls1) == Some((s1, st1)),
        import_run(st1, seq![again], now2, ls2) == Some((s2, st2)),
    ensures
        s1.created == 1 && s1.updated == 0 && s1.conflicts.len() == 0,
        s2.created == 0 && s2.updated == 1 && s2.conflicts.len() == 0,
        st1.tasks.dom().len() == 1 && st1.links.dom().len() == 1,
        st2.tasks.dom() == st1.tasks.dom(),
        st2.links.dom() == st1.links.dom(),
{
    let d = first.document@;
    let p1 = first.relative_path@;
    let p2 = again.relative_path@;
    assert(seq![first].drop_last() =~= Seq::<TaskNotesScannedDocument>::empty());
    assert(seq![again].drop_last() =~= Seq::<TaskNotesScannedDocument>::empty());
    assert(import_run(st0, seq![first].drop_last(), now1, ls1.drop_last()) == Some(
        (empty_summary(), st0),
    ));
    assert(import_run(st1, seq![again].drop_last(), now2, ls2.drop_last()) == Some(
        (empty_summary(), st1),
    ));
    assert(seq![first].last() == first);
    assert(seq![again].last() == again);
    // The first import sees an empty store and creates the note's task and link.
    let l1 = ls1.last();
    assert(listing_of(st0, l1));
    if l1.tasks.len() > 0 {
        assert(st0.tasks.contains_key(l1.tasks[0]@.id));
    }
    if l1.links.len() > 0 {
        assert(st0.links.contains_key(l1.links[0]@.id));
    }
    assert(l1.tasks =~= Seq::<Task>::empty());
    assert(l1.links =~= Seq::<ExternalLink>::empty());
    let ni1 = note_identity(p1, d);
    match ni1.todo_app_id {
        Some(a) => {
            assert(tasks_with_id(l1.tasks, a@) =~= Seq::<Task>::empty());
        },
        None => {},
    }
    match ni1.external_id {
        Some(e) => {
            assert(links_with_key(l1.links, ni1.provider@, false, e@) =~= Seq::<ExternalLink>::empty());
        },
        None => {},
    }
    match ni1.external_path {
        Some(e) => {
            assert(links_with_key(l1.links, ni1.provider@, true, e@) =~= Seq::<ExternalLink>::empty());
        },
        None => {},
    }
    assert(tasks_with_title(l1.tasks, ni1.title@) =~= Seq::<Task>::empty());
    assert(identity_match(ni1, l1.links, l1.tasks) == MatchView::NewRemote);
    let t = document_task(p1, d, now1);
    let k = document_link(t.id, p1, d, now1);
    assert(note_action(st0, first, now1, l1) == ImportActionView::Create(t, k));
    assert(st1.tasks == Map::<Seq<char>, TaskView>::empty().insert(t.id, t));
    assert(st1.links == Map::<Seq<char>, LinkView>::empty().insert(k.id, k));
    assert(st1.tasks.dom() =~= Set::<Seq<char>>::empty().insert(t.id));
    assert(st1.links.dom() =~= Set::<Seq<char>>::empty().insert(k.id));
    // The second import lists that task and that link, and the note links back to the task.
    let l2 = ls2.last();
    assert(listing_of(st1, l2));
    lemma_listing_of_one(st1, l2, t, k);
    let tk = l2.tasks[0];
    let lk = l2.links[0];
    assert(l2.tasks =~= seq![tk]);
    assert(l2.links =~= seq![lk]);
    lemma_note_identity_match(remote, p2, d, l2.links, l2.tasks);
    lemma_imported_note_links_back(remote, lk, tk, p1, p2, d, now1);
    assert(identity_match(note_identity(p2, d), l2.links, l2.tasks) == MatchView::Linked(t.id));
    let u = applied_document(t, d, now2);
    let k2 = document_link(u.id, p2, d, now2);
    assert(note_action(st1, again, now2, l2) == ImportActionView::Update(u, k2));
    assert(st2.tasks.dom() =~= st1.tasks.dom());
    assert(st2.links.dom() =~= st1.links.dom());
}

/// Two summaries one after the other: counters added, conflict messages joined.
pub open spec fn joined_summary(a: SummaryView, b: SummaryView) -> SummaryView {
    SummaryView {
        created: a.created + b.created,
        updated: a.updated + b.updated,
        linked: a.linked + b.linked,
        conflicts: a.conflicts + b.conflicts,
    }
}

/// Importing two lists of notes in turn, the second from where the first left the store,
/// is importing them joined: the store ends the same, counters add and conflict messages
/// join.
pub proof fn lemma_import_in_turn_is_import_joined(
    st: StoreView,
    xs: Seq<TaskNotesScannedDocument>,
    ys: Seq<TaskNotesScannedDocument>,
    now_ms: i64,
    a: Seq<NoteListing>,
    b: Seq<NoteListing>,
)
    requires
        a.len() == xs.len(),
        b.len() == ys.len(),
    ensures
        import_run(st, xs + ys, now_ms, a + b) == match import_run(st, xs, now_ms, a) {
            None => None,
            Some((s1, st1)) => match import_run(st1, ys, now_ms, b) {
                None => None,
                Some((s2, st2)) => Some((joined_summary(s1, s2), st2)),
            },
        },
    decreases ys.len(),
{
    if ys.len() == 0 {
        assert(xs + ys =~= xs);
        assert(a + b =~= a);
        match import_run(st, xs, now_ms, a) {
            Some((s1, st1)) => {
                assert(s1.conflicts + Seq::<Seq<char>>::empty() =~= s1.conflicts);
                assert(joined_summary(s1, empty_summary()) == s1);
            },
            None => {},
        }
    } else {
        lemma_import_in_turn_is_import_joined(st, xs, ys.drop_last(), now_ms, a, b.drop_last());
        assert((xs + ys).drop_last() =~= xs + ys.drop_last());
        assert((a + b).drop_last() =~= a + b.drop_last());
        assert((xs + ys).last() == ys.last());
        assert((a + b).last() == b.last());
        match import_run(st, xs, now_ms, a) {
            Some((s1, st1)) => match import_run(st1, ys.drop_last(), now_ms, b.drop_last()) {
                Some((s2, st2)) => {
                    if listing_of(st2, b.last()) {
                        let act = note_action(st2, ys.last(), now_ms, b.last());
                        match act {
                            ImportActionView::Conflict(m) => {
                                assert((s1.conflicts + s2.conflicts).push(m) =~= s1.conflicts
                                    + s2.conflicts.push(m));
                            },
                            _ => {},
                        }
                        assert(tallied(joined_summary(s1, s2), act) == joined_summary(
                            s1,
                            tallied(s2, act),
                        ));
                    }
                },
                None => {},
            },
            None => {},
        }
    }
}

/// A title in the frontmatter names the document, whatever headings its body holds; the
/// first heading names it only when the frontmatter gives no title, and the file name only
/// when neither does.
pub proof fn lemma_frontmatter_title_comes_first(file_stem: Option<Seq<char>>, contents: Seq<char>)
    ensures
        ({
            let parts = split_frontmatter(contents);
            let title = parsed_document(file_stem, contents).title;
            &&& frontmatter_field(parts, FieldKind::Title) matches Some(t) ==> title == t
            &&& frontmatter_field(parts, FieldKind::Title) is None ==> (heading_from(parts.body, 0)
                matches Some(h) ==> title == h)
            &&& frontmatter_field(parts, FieldKind::Title) is None && heading_from(parts.body, 0)
                is None ==> title == (match file_stem {
                Some(stem) => if stem.len() > 0 {
                    stem
                } else {
                    "Untitled task"@
                },
                None => "Untitled task"@,
            })
        }),
{
}

/// Applying a note to a task sets the task's notes to the note's body, or to none when the
/// body is empty, whatever notes the task had before; the title becomes the note's, the
/// update time is now, and every other field is kept.
pub proof fn lemma_applied_note_replaces_notes(t: TaskView, d: DocumentView, now_ms: i64)
    ensures
        ({
            let u = applied_document(t, d, now_ms);
            &&& d.body.len() == 0 ==> u.notes is None
            &&& d.body.len() > 0 ==> u.notes == Some(d.body)
            &&& u.title == d.title
            &&& u.updated_at_ms == now_ms
            &&& u == TaskView { notes: u.notes, title: u.title, updated_at_ms: u.updated_at_ms, ..t }
        }),
{
}

} // verus!
