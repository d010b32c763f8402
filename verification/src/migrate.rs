//! Profile migration: the option checks that fire before anything is read,
//! the reading of the input (its digest, its lines, the limits and the
//! line tallies), the record counts, the transformation counts, the output
//! bytes, and the receipt and dry-run preview records. Opening and writing
//! the files, and the profile adapters, are outside this crate.
use vstd::prelude::*;
use crate::text::{cat, cat3, owned, split_bytes, split_seq, sv, trim, trim_seq, int_text, u64_text};
use crate::digest::{sha256_hex, sha256_hex_of};
use crate::doctor_checks::{json_kind, json_is_object, parses_as_json};
use crate::error::{Error, ErrorKind};
use crate::leases::{format_rfc3339_nanos, rfc3339_text};
use crate::scheduling::{in_calendar, now_unix_nanos};

verus! {

broadcast use vstd::string::group_string_axioms;

/// The schema every migration receipt names.
pub const MIGRATION_RECEIPT_SCHEMA: &'static str = "urn:bead-rs:schema:migration-receipt:native-v1";

/// Lines and issues seen in the input and written to the output.
#[derive(Debug, Clone, Copy, PartialEq, Eq, Structural)]
pub struct RecordCounts {
    pub total_issues: usize,
    pub input_issues: usize,
    pub output_issues: usize,
    pub total_lines: usize,
    pub blank_lines: usize,
    pub malformed_lines: usize,
}

/// What the conversion did to the issues.
#[derive(Debug, Clone, Copy, PartialEq, Eq, Structural)]
pub struct TransformationCounts {
    pub transformed_issues: usize,
    pub preserved_issues: usize,
    pub total_transformations: usize,
    pub loss_entries: usize,
}

/// The record of a completed migration.
#[derive(Debug, Clone)]
pub struct MigrationReceipt {
    pub schema_ref: String,
    pub tool_version: String,
    pub timestamp: String,
    pub source_profile: String,
    pub target_profile: String,
    pub input_sha256: String,
    pub output_sha256: String,
    pub record_counts: RecordCounts,
    pub transformation_counts: TransformationCounts,
    pub warnings: Vec<String>,
    pub dry_run: bool,
    pub successful: bool,
}

/// What a dry run would produce.
#[derive(Debug, Clone)]
pub struct MigrationPreview {
    pub schema_ref: String,
    pub tool_version: String,
    pub timestamp: String,
    pub source_profile: String,
    pub target_profile: String,
    pub input_sha256: String,
    pub record_counts: RecordCounts,
    pub transformation_counts: TransformationCounts,
    pub warnings: Vec<String>,
    pub dry_run: bool,
    pub prospective: bool,
    pub successful: bool,
}

/// What a migration is asked to do.
#[derive(Debug, Clone)]
pub struct MigrationOptions {
    pub from_profile: String,
    pub to_profile: String,
    pub input_path: String,
    pub output_path: String,
    pub receipt_path: Option<String>,
    pub dry_run: bool,
}

/// `Path::new(a) == Path::new(b)`: equal component by component.
pub uninterp spec fn same_path(a: Seq<char>, b: Seq<char>) -> bool;

/// `Path::eq` on two paths. Component comparison is named, not spelled
/// out.
#[verifier::external_body]
fn paths_equal(a: &str, b: &str) -> (r: bool)
    ensures
        r == same_path(a@, b@),
{
    std::path::Path::new(a) == std::path::Path::new(b)
}

/// What the file system and the profile registry say about the options.
#[derive(Debug, Clone)]
pub struct PathFacts {
    pub source_supported: bool,
    pub target_supported: bool,
    pub input_exists: bool,
    pub output_exists: bool,
    pub receipt_exists: bool,
    pub output_workspace_managed: bool,
}

/// The first option check that fails, in order: both profiles supported,
/// distinct input and output, a receipt path distinct from both, the input
/// present, the output and receipt absent, the output outside the
/// workspace.
pub open spec fn options_problem(o: MigrationOptions, f: PathFacts) -> Option<Seq<char>> {
    if !f.source_supported {
        Some("Unsupported source profile: "@ + o.from_profile@)
    } else if !f.target_supported {
        Some("Unsupported target profile: "@ + o.to_profile@)
    } else if same_path(o.input_path@, o.output_path@) {
        Some("Input and output paths must be distinct"@)
    } else if o.receipt_path matches Some(r) && (same_path(r@, o.input_path@) || same_path(r@, o.output_path@)) {
        Some("Receipt path must be distinct from input and output paths"@)
    } else if !f.input_exists {
        Some("Input file does not exist: "@ + o.input_path@)
    } else if f.output_exists {
        Some("Output file must not exist: "@ + o.output_path@)
    } else if o.receipt_path is Some && f.receipt_exists {
        Some("Receipt file must not exist: "@ + o.receipt_path->0@)
    } else if f.output_workspace_managed {
        Some("Output path must not be a workspace-managed file"@)
    } else {
        None
    }
}

impl MigrationOptions {
    /// Check the options before anything is read or written.
    pub fn validate(&self, facts: &PathFacts) -> (r: Result<(), String>)
        ensures
            match options_problem(*self, *facts) {
                None => r is Ok,
                Some(m) => r matches Err(e) && e@ == m,
            },
    {
        if !facts.source_supported {
            return Err(cat("Unsupported source profile: ", self.from_profile.as_str()));
        }
        if !facts.target_supported {
            return Err(cat("Unsupported target profile: ", self.to_profile.as_str()));
        }
        if paths_equal(self.input_path.as_str(), self.output_path.as_str()) {
            return Err(owned("Input and output paths must be distinct"));
        }
        if let Some(receipt) = &self.receipt_path {
            if paths_equal(receipt.as_str(), self.input_path.as_str()) || paths_equal(receipt.as_str(), self.output_path.as_str()) {
                return Err(owned("Receipt path must be distinct from input and output paths"));
            }
        }
        if !facts.input_exists {
            return Err(cat("Input file does not exist: ", self.input_path.as_str()));
        }
        if facts.output_exists {
            return Err(cat("Output file must not exist: ", self.output_path.as_str()));
        }
        if let Some(receipt) = &self.receipt_path {
            if facts.receipt_exists {
                return Err(cat("Receipt file must not exist: ", receipt.as_str()));
            }
        }
        if facts.output_workspace_managed {
            return Err(owned("Output path must not be a workspace-managed file"));
        }
        Ok(())
    }
}

/// The counts of a conversion of `converted` issues: all of them count as
/// transformed between distinct profiles, and as preserved otherwise.
pub fn transformation_counts(
    converted: usize,
    source_profile: &str,
    target_profile: &str,
    total_transformations: usize,
    loss_entries: usize,
) -> (r: TransformationCounts)
    ensures
        r.transformed_issues == (if source_profile@ != target_profile@ { converted } else { 0 }),
        r.preserved_issues == (if source_profile@ == target_profile@ { converted } else { 0 }),
        r.total_transformations == total_transformations,
        r.loss_entries == loss_entries,
{
    let same = crate::text::str_eq(source_profile, target_profile);
    TransformationCounts {
        transformed_issues: if !same { converted } else { 0 },
        preserved_issues: if same { converted } else { 0 },
        total_transformations,
        loss_entries,
    }
}

fn copy_list(v: &Vec<String>) -> (r: Vec<String>)
    ensures
        crate::text::sv(r@) == crate::text::sv(v@),
{
    crate::git::copy_paths(v)
}

/// The receipt of a completed migration.
pub fn build_migration_receipt(
    tool_version: &str,
    timestamp: &str,
    source_profile: &str,
    target_profile: &str,
    input_sha256: &str,
    output_sha256: &str,
    stats: &RecordCounts,
    transform_stats: &TransformationCounts,
    warnings: &Vec<String>,
    dry_run: bool,
) -> (r: MigrationReceipt)
    ensures
        r.schema_ref@ == MIGRATION_RECEIPT_SCHEMA@,
        r.tool_version@ == tool_version@,
        r.timestamp@ == timestamp@,
        r.source_profile@ == source_profile@,
        r.target_profile@ == target_profile@,
        r.input_sha256@ == input_sha256@,
        r.output_sha256@ == output_sha256@,
        r.record_counts == *stats,
        r.transformation_counts == *transform_stats,
        crate::text::sv(r.warnings@) == crate::text::sv(warnings@),
        r.dry_run == dry_run,
        r.successful,
{
    MigrationReceipt {
        schema_ref: owned(MIGRATION_RECEIPT_SCHEMA),
        tool_version: owned(tool_version),
        timestamp: owned(timestamp),
        source_profile: owned(source_profile),
        target_profile: owned(target_profile),
        input_sha256: owned(input_sha256),
        output_sha256: owned(output_sha256),
        record_counts: *stats,
        transformation_counts: *transform_stats,
        warnings: copy_list(warnings),
        dry_run,
        successful: true,
    }
}

/// The preview of a dry run: prospective, with no output written.
pub fn build_migration_preview(
    tool_version: &str,
    timestamp: &str,
    source_profile: &str,
    target_profile: &str,
    input_sha256: &str,
    stats: &RecordCounts,
    transform_stats: &TransformationCounts,
    warnings: &Vec<String>,
) -> (r: MigrationPreview)
    ensures
        r.schema_ref@ == MIGRATION_RECEIPT_SCHEMA@,
        r.tool_version@ == tool_version@,
        r.timestamp@ == timestamp@,
        r.source_profile@ == source_profile@,
        r.target_profile@ == target_profile@,
        r.input_sha256@ == input_sha256@,
        r.record_counts == *stats,
        r.transformation_counts == *transform_stats,
        crate::text::sv(r.warnings@) == crate::text::sv(warnings@),
        r.dry_run && r.prospective && r.successful,
{
    MigrationPreview {
        schema_ref: owned(MIGRATION_RECEIPT_SCHEMA),
        tool_version: owned(tool_version),
        timestamp: owned(timestamp),
        source_profile: owned(source_profile),
        target_profile: owned(target_profile),
        input_sha256: owned(input_sha256),
        record_counts: *stats,
        transformation_counts: *transform_stats,
        warnings: copy_list(warnings),
        dry_run: true,
        prospective: true,
        successful: true,
    }
}

/// A dry run's preview in receipt form: the same fields, with no output
/// hash since nothing was written.
pub fn convert_preview_to_receipt(preview: MigrationPreview) -> (r: MigrationReceipt)
    ensures
        r.schema_ref@ == preview.schema_ref@,
        r.tool_version@ == preview.tool_version@,
        r.timestamp@ == preview.timestamp@,
        r.source_profile@ == preview.source_profile@,
        r.target_profile@ == preview.target_profile@,
        r.input_sha256@ == preview.input_sha256@,
        r.output_sha256@ == Seq::<char>::empty(),
        r.record_counts == preview.record_counts,
        r.transformation_counts == preview.transformation_counts,
        r.warnings@ == preview.warnings@,
        r.dry_run == preview.dry_run,
        r.successful == preview.successful,
{
    MigrationReceipt {
        schema_ref: preview.schema_ref,
        tool_version: preview.tool_version,
        timestamp: preview.timestamp,
        source_profile: preview.source_profile,
        target_profile: preview.target_profile,
        input_sha256: preview.input_sha256,
        output_sha256: String::new(),
        record_counts: preview.record_counts,
        transformation_counts: preview.transformation_counts,
        warnings: preview.warnings,
        dry_run: preview.dry_run,
        successful: preview.successful,
    }
}

/// At most this many issues are read from one input.
pub const MAX_ISSUE_RECORDS: usize = 1000000;

/// No input line may be longer than this many bytes.
pub const MAX_BYTES_PER_LINE: usize = 16777216;

/// The input, counting one newline per line, may not exceed this many bytes.
pub const MAX_TOTAL_BYTES: u64 = 4294967296;

/// `std::str::from_utf8`: the text of valid UTF-8, nothing otherwise.
#[verifier::external_body]
fn utf8_text(b: &[u8]) -> (r: Option<String>)
    ensures
        r is Some <==> vstd::utf8::valid_utf8(b@),
        r matches Some(t) ==> t@ == vstd::utf8::decode_utf8(b@),
{
    match std::str::from_utf8(b) {
        Ok(t) => Some(t.to_string()),
        Err(_) => None,
    }
}

/// How many lines the input has: the newline-separated pieces, less an
/// empty piece after the last newline.
pub open spec fn line_count(b: Seq<u8>) -> nat {
    let p = split_seq(b, 10u8);
    if p.last().len() == 0 {
        (p.len() - 1) as nat
    } else {
        p.len()
    }
}

/// Line `k` of the input, as `BufRead::lines` gives it: a newline-ended
/// line loses a carriage return before its newline.
pub open spec fn input_line(b: Seq<u8>, k: int) -> Seq<u8> {
    let p = split_seq(b, 10u8);
    let piece = p[k];
    if k < p.len() - 1 && piece.len() > 0 && piece.last() == 13u8 {
        piece.drop_last()
    } else {
        piece
    }
}

/// What reading the input found so far: the record lines (their text and
/// 1-based line numbers), the lines and blank lines seen, the bytes counted
/// and the first failure.
pub struct InputScan {
    pub records: Seq<Seq<char>>,
    pub record_lines: Seq<int>,
    pub total: int,
    pub blank: int,
    pub bytes: int,
    pub failure: Option<Seq<char>>,
}

pub open spec fn unreadable_line() -> Seq<char> {
    "Failed to read line"@
}

pub open spec fn size_refusal() -> Seq<char> {
    "Input file exceeds maximum size of 4294967296 bytes"@
}

pub open spec fn long_line_refusal(n: int) -> Seq<char> {
    "Line "@ + int_text(n) + " exceeds maximum length of 16777216 bytes"@
}

pub open spec fn json_refusal(n: int) -> Seq<char> {
    "Failed to parse JSON on line "@ + int_text(n)
}

pub open spec fn object_refusal(n: int) -> Seq<char> {
    "Line "@ + int_text(n) + " is not a JSON object"@
}

pub open spec fn failed_with(s: InputScan, m: Seq<char>) -> InputScan {
    InputScan { failure: Some(m), ..s }
}

/// Reading line number `num`: a line that is not UTF-8 fails; the byte
/// total (one newline per line) may not pass the limit; a blank line is
/// counted; any other line must be within the line limit and be a JSON
/// object, and is a record.
pub open spec fn scan_step(s: InputScan, line: Seq<u8>, num: int) -> InputScan {
    if !vstd::utf8::valid_utf8(line) {
        failed_with(s, unreadable_line())
    } else if s.bytes + line.len() + 1 > MAX_TOTAL_BYTES {
        failed_with(s, size_refusal())
    } else {
        let text = vstd::utf8::decode_utf8(line);
        let counted = InputScan { total: s.total + 1, bytes: s.bytes + line.len() + 1, ..s };
        if trim_seq(text).len() == 0 {
            InputScan { blank: s.blank + 1, ..counted }
        } else if line.len() > MAX_BYTES_PER_LINE {
            failed_with(s, long_line_refusal(num))
        } else if !parses_as_json(text) {
            failed_with(s, json_refusal(num))
        } else if !json_is_object(text) {
            failed_with(s, object_refusal(num))
        } else {
            InputScan { records: s.records.push(text), record_lines: s.record_lines.push(num), ..counted }
        }
    }
}

/// The scan of the first `n` lines; reading stops at the first failure.
pub open spec fn scan_lines(b: Seq<u8>, n: nat) -> InputScan
    decreases n,
{
    if n == 0 {
        InputScan { records: Seq::empty(), record_lines: Seq::empty(), total: 0, blank: 0, bytes: 0, failure: None }
    } else {
        let s = scan_lines(b, (n - 1) as nat);
        if s.failure is Some {
            s
        } else {
            scan_step(s, input_line(b, n - 1), n as int)
        }
    }
}

/// The scan of the whole input.
pub open spec fn input_scan(b: Seq<u8>) -> InputScan {
    scan_lines(b, line_count(b))
}

/// Every line read is either blank or a record: the line count is the
/// blank lines plus the records, and each record has its line number.
pub proof fn law_every_line_is_blank_or_a_record(b: Seq<u8>)
    ensures
        input_scan(b).total == input_scan(b).blank + input_scan(b).records.len(),
        input_scan(b).records.len() == input_scan(b).record_lines.len(),
{
    lemma_scan_counts(b, line_count(b));
}

proof fn lemma_scan_counts(b: Seq<u8>, n: nat)
    ensures
        scan_lines(b, n).total == scan_lines(b, n).blank + scan_lines(b, n).records.len(),
        scan_lines(b, n).records.len() == scan_lines(b, n).record_lines.len(),
    decreases n,
{
    if n > 0 {
        lemma_scan_counts(b, (n - 1) as nat);
    }
}

/// What reading a migration input produced: its digest, the record lines
/// (text and 1-based line number) read before any failure, the line and
/// blank-line counts, and the first failure, if reading stopped at one.
#[derive(Debug, Clone)]
pub struct MigrationInput {
    pub input_sha256: String,
    pub records: Vec<String>,
    pub record_lines: Vec<usize>,
    pub total_lines: usize,
    pub blank_lines: usize,
    pub failure: Option<String>,
}

pub open spec fn lines_view(v: Seq<usize>) -> Seq<int> {
    v.map_values(|x: usize| x as int)
}

pub open spec fn input_view(m: MigrationInput) -> InputScan {
    InputScan {
        records: sv(m.records@),
        record_lines: lines_view(m.record_lines@),
        total: m.total_lines as int,
        blank: m.blank_lines as int,
        bytes: 0,
        failure: crate::git::opt_text(m.failure),
    }
}

fn copy_prefix(v: &Vec<u8>, m: usize) -> (r: Vec<u8>)
    requires
        m <= v@.len(),
    ensures
        r@ == v@.take(m as int),
{
    let mut out: Vec<u8> = Vec::new();
    let mut i: usize = 0;
    while i < m
        invariant
            m <= v@.len(),
            i <= m,
            out@ == v@.take(i as int),
        decreases m - i,
    {
        out.push(v[i]);
        assert(v@.take(i + 1) =~= v@.take(i as int).push(v@[i as int]));
        i = i + 1;
    }
    out
}

/// Read a migration input: its SHA-256 digest, then its lines in order
/// (see `scan_step`) until the first failure. Every field but the byte
/// count is that of `input_scan`.
pub fn read_migration_input(input: &[u8]) -> (r: MigrationInput)
    ensures
        r.input_sha256@ == sha256_hex(input@),
        input_view(r) == (InputScan { bytes: 0, ..input_scan(input@) }),
        r.records@.len() == r.record_lines@.len(),
{
    let input_sha256 = sha256_hex_of(input);
    let pieces = split_bytes(input, 10u8);
    let ghost p = split_seq(input@, 10u8);
    proof {
        crate::text::lemma_split_seq_nonempty(input@, 10u8);
        assert(pieces@.map_values(|v: Vec<u8>| v@) == p);
        assert(pieces@.len() == p.len());
    }
    let np = pieces.len();
    let n: usize = if pieces[np - 1].len() == 0 { np - 1 } else { np };
    proof {
        assert(pieces@[np - 1]@ == p.last());
    }
    assert(n == line_count(input@));
    let mut records: Vec<String> = Vec::new();
    let mut record_lines: Vec<usize> = Vec::new();
    let mut total: usize = 0;
    let mut blank: usize = 0;
    let mut bytes: u64 = 0;
    let mut failure: Option<String> = None;
    let mut k: usize = 0;
    assert(sv(records@) =~= Seq::<Seq<char>>::empty());
    assert(lines_view(record_lines@) =~= Seq::<int>::empty());
    while k < n
        invariant
            n <= np,
            np == pieces@.len(),
            pieces@.map_values(|v: Vec<u8>| v@) == p,
            p == split_seq(input@, 10u8),
            k <= n,
            n == line_count(input@),
            total <= k,
            blank <= total,
            bytes <= MAX_TOTAL_BYTES,
            records@.len() == record_lines@.len(),
            (InputScan { records: sv(records@), record_lines: lines_view(record_lines@), total: total as int,
                blank: blank as int, bytes: bytes as int, failure: crate::git::opt_text(failure) }) == scan_lines(input@, k as nat),
        decreases n - k,
    {
        let ghost s = scan_lines(input@, k as nat);
        if failure.is_none() {
            let piece = &pieces[k];
            assert(piece@ == p[k as int]);
            let line: Vec<u8> = if k < np - 1 && piece.len() > 0 && piece[piece.len() - 1] == 13u8 {
                let m = piece.len() - 1;
                let l = copy_prefix(piece, m);
                assert(l@ =~= piece@.drop_last());
                l
            } else {
                copy_prefix(piece, piece.len())
            };
            assert(line@ =~= input_line(input@, k as int));
            let num: usize = k + 1;
            match utf8_text(line.as_slice()) {
                None => {
                    failure = Some(owned("Failed to read line"));
                },
                Some(text) => {
                    let len: u64 = line.len() as u64;
                    if len >= MAX_TOTAL_BYTES - bytes {
                        failure = Some(owned("Input file exceeds maximum size of 4294967296 bytes"));
                    } else {
                        let add: u64 = len + 1;
                        let trimmed = trim(text.as_str());
                        if crate::text::chars_of(trimmed.as_str()).len() == 0 {
                            assert(trim_seq(text@).len() == 0);
                            total = total + 1;
                            blank = blank + 1;
                            bytes = bytes + add;
                        } else if line.len() > MAX_BYTES_PER_LINE {
                            let t = u64_text(num as u64);
                            failure = Some(cat3("Line ", t.as_str(), " exceeds maximum length of 16777216 bytes"));
                        } else {
                            match json_kind(text.as_str()) {
                                None => {
                                    let t = u64_text(num as u64);
                                    failure = Some(cat("Failed to parse JSON on line ", t.as_str()));
                                },
                                Some(false) => {
                                    let t = u64_text(num as u64);
                                    failure = Some(cat3("Line ", t.as_str(), " is not a JSON object"));
                                },
                                Some(true) => {
                                    let ghost before = sv(records@);
                                    let ghost before_lines = lines_view(record_lines@);
                                    records.push(text);
                                    record_lines.push(num);
                                    assert(sv(records@) =~= before.push(vstd::utf8::decode_utf8(line@)));
                                    assert(lines_view(record_lines@) =~= before_lines.push(num as int));
                                    total = total + 1;
                                    bytes = bytes + add;
                                },
                            }
                        }
                    }
                },
            }
        }
        k = k + 1;
    }
    MigrationInput { input_sha256, records, record_lines, total_lines: total, blank_lines: blank, failure }
}

/// What the profile adapter made of one record line: an issue, a record it
/// could not convert (malformed), an adapter error (its message), or a
/// converted record that does not read as an issue.
#[derive(Debug, Clone)]
pub enum RecordVerdict {
    Issue,
    Malformed,
    AdapterFailed(String),
    Unreadable,
}

pub open spec fn count_refusal() -> Seq<char> {
    "Input exceeds maximum record count of 1000000"@
}

/// Issues and malformed records among the first `n` verdicts, and the
/// first failure: an adapter error, an unreadable issue (naming its line),
/// or more issues than the limit.
pub open spec fn tally(verdicts: Seq<RecordVerdict>, lines: Seq<int>, n: nat) -> (int, int, Option<Seq<char>>)
    decreases n,
{
    if n == 0 {
        (0, 0, None)
    } else {
        let t = tally(verdicts, lines, (n - 1) as nat);
        if t.2 is Some {
            t
        } else {
            match verdicts[n - 1] {
                RecordVerdict::Issue => if t.0 + 1 > MAX_ISSUE_RECORDS {
                    (t.0 + 1, t.1, Some(count_refusal()))
                } else {
                    (t.0 + 1, t.1, None)
                },
                RecordVerdict::Malformed => (t.0, t.1 + 1, None),
                RecordVerdict::AdapterFailed(m) => (t.0, t.1, Some(m@)),
                RecordVerdict::Unreadable => (t.0, t.1, Some("Failed to parse issue on line "@ + int_text(lines[n - 1]))),
            }
        }
    }
}

/// The record counts of a read input, given the adapter's verdict on each
/// record line in order. Records come before the reading failure that
/// stopped the input, so the first failure among them is reported first,
/// then the reading failure; otherwise every issue was read and the counts
/// are those of the input.
pub fn tally_records(input: &MigrationInput, verdicts: &Vec<RecordVerdict>) -> (r: Result<RecordCounts, Error>)
    requires
        verdicts@.len() == input.records@.len(),
        input.record_lines@.len() == input.records@.len(),
    ensures
        ({
            let t = tally(verdicts@, lines_view(input.record_lines@), verdicts@.len());
            match t.2 {
                Some(m) => r matches Err(e) && e.is(ErrorKind::Validation, m),
                None => match input.failure {
                    Some(f) => r matches Err(e) && e.is(ErrorKind::Validation, f@),
                    None => r matches Ok(c) && c.total_issues == t.0 && c.input_issues == t.0 && c.output_issues == 0
                        && c.total_lines == input.total_lines && c.blank_lines == input.blank_lines
                        && c.malformed_lines == t.1,
                },
            }
        }),
{
    let ghost lines = lines_view(input.record_lines@);
    let mut issues: usize = 0;
    let mut malformed: usize = 0;
    let mut i: usize = 0;
    while i < verdicts.len()
        invariant
            i <= verdicts@.len(),
            verdicts@.len() == input.records@.len(),
            input.record_lines@.len() == input.records@.len(),
            lines == lines_view(input.record_lines@),
            tally(verdicts@, lines, i as nat) == (issues as int, malformed as int, None::<Seq<char>>),
            issues <= MAX_ISSUE_RECORDS,
            malformed <= i,
        decreases verdicts@.len() - i,
    {
        match &verdicts[i] {
            RecordVerdict::Issue => {
                if issues + 1 > MAX_ISSUE_RECORDS {
                    proof {
                        lemma_tally_stops(verdicts@, lines, (i + 1) as nat, verdicts@.len());
                    }
                    return Err(Error::Validation(owned("Input exceeds maximum record count of 1000000")));
                }
                issues = issues + 1;
            },
            RecordVerdict::Malformed => {
                malformed = malformed + 1;
            },
            RecordVerdict::AdapterFailed(m) => {
                proof {
                    lemma_tally_stops(verdicts@, lines, (i + 1) as nat, verdicts@.len());
                }
                return Err(Error::Validation(m.clone()));
            },
            RecordVerdict::Unreadable => {
                let t = u64_text(input.record_lines[i] as u64);
                proof {
                    assert(lines[i as int] == input.record_lines@[i as int] as int);
                    lemma_tally_stops(verdicts@, lines, (i + 1) as nat, verdicts@.len());
                }
                return Err(Error::Validation(cat("Failed to parse issue on line ", t.as_str())));
            },
        }
        i = i + 1;
    }
    match &input.failure {
        Some(f) => Err(Error::Validation(f.clone())),
        None => Ok(RecordCounts {
            total_issues: issues,
            input_issues: issues,
            output_issues: 0,
            total_lines: input.total_lines,
            blank_lines: input.blank_lines,
            malformed_lines: malformed,
        }),
    }
}

/// Once a tally has failed, later verdicts change nothing.
proof fn lemma_tally_stops(verdicts: Seq<RecordVerdict>, lines: Seq<int>, k: nat, n: nat)
    requires
        k <= n,
        tally(verdicts, lines, k).2 is Some,
    ensures
        tally(verdicts, lines, n) == tally(verdicts, lines, k),
    decreases n - k,
{
    if n > k {
        lemma_tally_stops(verdicts, lines, k, (n - 1) as nat);
    }
}

/// The bytes of an output file: every line followed by a newline.
pub open spec fn output_bytes(lines: Seq<Seq<char>>) -> Seq<u8>
    decreases lines.len(),
{
    if lines.len() == 0 {
        Seq::empty()
    } else {
        output_bytes(lines.drop_last()) + vstd::utf8::encode_utf8(lines.last()) + seq![10u8]
    }
}

/// The output file's bytes for the converted records, and their SHA-256
/// digest.
pub fn migration_output(lines: &Vec<String>) -> (r: (Vec<u8>, String))
    ensures
        r.0@ == output_bytes(sv(lines@)),
        r.1@ == sha256_hex(r.0@),
{
    let mut out: Vec<u8> = Vec::new();
    let mut i: usize = 0;
    while i < lines.len()
        invariant
            i <= lines@.len(),
            out@ == output_bytes(sv(lines@.take(i as int))),
        decreases lines@.len() - i,
    {
        let bytes = lines[i].as_str().as_bytes();
        let mut j: usize = 0;
        let ghost start = out@;
        while j < bytes.len()
            invariant
                j <= bytes@.len(),
                out@ == start + bytes@.take(j as int),
            decreases bytes@.len() - j,
        {
            out.push(bytes[j]);
            assert(bytes@.take(j + 1) =~= bytes@.take(j as int).push(bytes@[j as int]));
            j = j + 1;
        }
        out.push(10u8);
        proof {
            assert(bytes@.take(bytes@.len() as int) =~= bytes@);
            assert(sv(lines@.take(i + 1)).drop_last() =~= sv(lines@.take(i as int)));
            assert(sv(lines@.take(i + 1)).last() == lines@[i as int]@);
            assert(out@ =~= output_bytes(sv(lines@.take(i + 1))));
        }
        i = i + 1;
    }
    assert(lines@.take(lines@.len() as int) =~= lines@);
    let digest = sha256_hex_of(out.as_slice());
    (out, digest)
}

/// The clock's current time as RFC 3339 text, or `timestamp-error` where it
/// cannot be formatted.
pub fn utc_now() -> (r: String)
    ensures
        exists|now: int| in_calendar(now) && r@ == match #[trigger] rfc3339_text(now) {
            Some(t) => t,
            None => "timestamp-error"@,
        },
{
    let now = now_unix_nanos();
    let r = match format_rfc3339_nanos(now) {
        Some(t) => t,
        None => owned("timestamp-error"),
    };
    assert(r@ == match rfc3339_text(now as int) {
        Some(t) => t,
        None => "timestamp-error"@,
    });
    r
}

} // verus!
