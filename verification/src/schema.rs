//! The schema side of the framework: how one documentation line maps to
//! an argument's metadata, and how a whole documentation block splits
//! into free-text help and the argument lines after the `# Args` marker.

use vstd::prelude::*;
use vstd::string::*;
use crate::strutil::find_char;
use crate::strutil::spec_first_index;
use crate::strutil::spec_trim;
use crate::strutil::str_eq;
use crate::strutil::str_starts_with;
use crate::strutil::trim_str;

verus! {

/// Metadata of one argument, as read from a documentation line.
#[derive(Debug, PartialEq)]
pub struct DocData {
    /// The long name; the sentinel `input` names the positional slot.
    pub long: String,
    /// The optional one-character short alias.
    pub short: Option<String>,
    /// Free-text description.
    pub docs: String,
}

/// Model of `DocData`.
pub struct DocDataModel {
    pub long: Seq<char>,
    pub short: Option<Seq<char>>,
    pub docs: Seq<char>,
}

impl View for DocData {
    type V = DocDataModel;

    open spec fn view(&self) -> DocDataModel {
        DocDataModel { long: self.long@, short: self.short.deep_view(), docs: self.docs@ }
    }
}

impl DeepView for DocData {
    type V = DocDataModel;

    open spec fn deep_view(&self) -> DocDataModel {
        self.view()
    }
}

/// A malformed documentation block.
#[derive(Debug, PartialEq)]
pub enum SchemaError {
    /// An args-section line matching neither `input ...` nor
    /// `--name [-s] ...`; carries the offending line.
    InvalidArgLine(String),
    /// A short alias that is not exactly one character; carries the long
    /// name and the offending line.
    InvalidShortName { long: String, line: String },
}

/// Model of `SchemaError`.
pub enum SchemaErrorModel {
    InvalidArgLine(Seq<char>),
    InvalidShortName { long: Seq<char>, line: Seq<char> },
}

impl View for SchemaError {
    type V = SchemaErrorModel;

    open spec fn view(&self) -> SchemaErrorModel {
        match self {
            SchemaError::InvalidArgLine(l) => SchemaErrorModel::InvalidArgLine(l@),
            SchemaError::InvalidShortName { long, line } => SchemaErrorModel::InvalidShortName {
                long: long@,
                line: line@,
            },
        }
    }
}

impl DeepView for SchemaError {
    type V = SchemaErrorModel;

    open spec fn deep_view(&self) -> SchemaErrorModel {
        self.view()
    }
}

/// What one args-section line denotes: the positional sentinel, a long
/// name with an optional one-character short alias and description, or a
/// schema-definition error.
pub open spec fn spec_parse_doc_line(line: Seq<char>) -> Result<DocDataModel, SchemaErrorModel> {
    let t = spec_trim(line);
    if t.len() >= 5 && t.take(5) == "input"@ {
        Ok(DocDataModel { long: "input"@, short: None, docs: spec_trim(t.skip(5)) })
    } else if t.len() >= 2 && t.take(2) == "--"@ {
        let after = t.skip(2);
        let k = spec_first_index(after, ' ');
        if k == after.len() {
            Ok(DocDataModel { long: after, short: None, docs: Seq::empty() })
        } else {
            let long = spec_trim(after.take(k));
            let rest = spec_trim(after.skip(k + 1));
            if rest.len() >= 1 && rest[0] == '-' {
                let s2 = spec_trim(rest.skip(1));
                let m = spec_first_index(s2, ' ');
                if m > 1 {
                    Err(SchemaErrorModel::InvalidShortName { long: long, line: line })
                } else if m == s2.len() {
                    Ok(DocDataModel { long: long, short: Some(s2), docs: Seq::empty() })
                } else {
                    Ok(
                        DocDataModel {
                            long: long,
                            short: Some(s2.take(m)),
                            docs: s2.skip(m + 1),
                        },
                    )
                }
            } else {
                Ok(DocDataModel { long: long, short: None, docs: rest })
            }
        }
    } else {
        Err(SchemaErrorModel::InvalidArgLine(line))
    }
}

impl DocData {
    /// Reads one args-section line. A line `input ...` describes the
    /// positional slot; a line `--name [-s] ...` describes a flag, whose
    /// short alias must be exactly one character; anything else is a
    /// schema-definition error naming the offending line.
    pub fn from_str(line: &str) -> (r: Result<DocData, SchemaError>)
        ensures
            (match r {
                Ok(d) => spec_parse_doc_line(line@) == Ok::<DocDataModel, SchemaErrorModel>(d@),
                Err(e) => spec_parse_doc_line(line@) == Err::<DocDataModel, SchemaErrorModel>(e@),
            }),
    {
        proof {
            reveal_strlit("input");
            reveal_strlit("--");
        }
        let trimmed = trim_str(line);
        let t = trimmed.as_str();
        let tn = t.unicode_len();
        if str_starts_with(t, "input") {
            proof {
                assert(t@.subrange(5, tn as int) =~= trimmed@.skip(5));
            }
            let docs = trim_str(t.substring_char(5, tn));
            return Ok(DocData { long: String::from_str("input"), short: None, docs });
        }
        if str_starts_with(t, "--") {
            proof {
                assert(t@.subrange(2, tn as int) =~= trimmed@.skip(2));
            }
            let after = t.substring_char(2, tn);
            let an = after.unicode_len();
            let k = find_char(after, ' ');
            if k == an {
                return Ok(
                    DocData {
                        long: String::from_str(after),
                        short: None,
                        docs: String::new(),
                    },
                );
            }
            proof {
                assert(after@.subrange(0, k as int) =~= after@.take(k as int));
                assert(after@.subrange(k + 1, an as int) =~= after@.skip(k + 1));
            }
            let long = trim_str(after.substring_char(0, k));
            let rest_owned = trim_str(after.substring_char(k + 1, an));
            let rest = rest_owned.as_str();
            let rn = rest.unicode_len();
            if rn >= 1 && rest.get_char(0) == '-' {
                proof {
                    assert(rest@.subrange(1, rn as int) =~= rest@.skip(1));
                }
                let s2_owned = trim_str(rest.substring_char(1, rn));
                let s2 = s2_owned.as_str();
                let sn = s2.unicode_len();
                let m = find_char(s2, ' ');
                if m > 1 {
                    return Err(
                        SchemaError::InvalidShortName {
                            long,
                            line: String::from_str(line),
                        },
                    );
                }
                if m == sn {
                    return Ok(
                        DocData {
                            long,
                            short: Some(String::from_str(s2)),
                            docs: String::new(),
                        },
                    );
                }
                proof {
                    assert(s2@.subrange(0, m as int) =~= s2@.take(m as int));
                    assert(s2@.subrange(m + 1, sn as int) =~= s2@.skip(m + 1));
                }
                let short = String::from_str(s2.substring_char(0, m));
                let docs = String::from_str(s2.substring_char(m + 1, sn));
                return Ok(DocData { long, short: Some(short), docs });
            }
            return Ok(DocData { long, short: None, docs: rest_owned });
        }
        Err(SchemaError::InvalidArgLine(String::from_str(line)))
    }
}

/// Lines joined with newlines.
pub open spec fn spec_join_lines(lines: Seq<Seq<char>>) -> Seq<char>
    decreases lines.len(),
{
    if lines.len() == 0 {
        Seq::empty()
    } else if lines.len() == 1 {
        lines[0]
    } else {
        lines[0] + seq!['\n'] + spec_join_lines(lines.skip(1))
    }
}

/// Appending one more line extends the join by a newline and the line.
proof fn lemma_join_lines_push(lines: Seq<Seq<char>>, x: Seq<char>)
    ensures
        lines.len() == 0 ==> spec_join_lines(lines.push(x)) == x,
        lines.len() > 0 ==> spec_join_lines(lines.push(x)) == spec_join_lines(lines)
            + seq!['\n'] + x,
    decreases lines.len(),
{
    let t = lines.push(x);
    if lines.len() == 0 {
        assert(t.len() == 1);
        assert(t[0] == x);
    } else {
        lemma_join_lines_push(lines.skip(1), x);
        assert(t.skip(1) =~= lines.skip(1).push(x));
        assert(t[0] == lines[0]);
        if lines.len() == 1 {
            assert(spec_join_lines(lines) == lines[0]);
        } else {
            assert(lines[0] + seq!['\n'] + (spec_join_lines(lines.skip(1)) + seq!['\n'] + x)
                =~= (lines[0] + seq!['\n'] + spec_join_lines(lines.skip(1))) + seq!['\n'] + x);
        }
    }
}

/// Index of the args marker: the first line whose trimmed text is the
/// marker `# Args`, or the number of lines when there is none.
pub open spec fn spec_marker_index(lines: Seq<Seq<char>>) -> int
    decreases lines.len(),
{
    if lines.len() == 0 {
        0
    } else if spec_trim(lines[0]) == "# Args"@ {
        0
    } else {
        1 + spec_marker_index(lines.skip(1))
    }
}

/// A position with no marker before it, holding the marker or standing
/// at the end, is the marker index.
proof fn lemma_marker_index_at(lines: Seq<Seq<char>>, k: int)
    requires
        0 <= k <= lines.len(),
        forall|j: int| 0 <= j < k ==> spec_trim(#[trigger] lines[j]) != "# Args"@,
        k < lines.len() ==> spec_trim(lines[k]) == "# Args"@,
    ensures
        spec_marker_index(lines) == k,
    decreases k,
{
    if k == 0 {
        if lines.len() > 0 && spec_trim(lines[0]) != "# Args"@ {
            lemma_marker_index_none(lines.skip(1));
        }
    } else {
        assert(spec_trim(lines[0]) != "# Args"@);
        lemma_marker_index_at(lines.skip(1), k - 1);
    }
}

/// Without any marker line the marker index is the number of lines.
proof fn lemma_marker_index_none(lines: Seq<Seq<char>>)
    requires
        forall|j: int| 0 <= j < lines.len() ==> spec_trim(#[trigger] lines[j]) != "# Args"@,
    ensures
        spec_marker_index(lines) == lines.len(),
    decreases lines.len(),
{
    if lines.len() > 0 {
        lemma_marker_index_none(lines.skip(1));
    }
}

/// The argument lines parsed in order, stopping at the first error.
pub open spec fn spec_parse_doc_lines(lines: Seq<Seq<char>>) -> Result<
    Seq<DocDataModel>,
    SchemaErrorModel,
>
    decreases lines.len(),
{
    if lines.len() == 0 {
        Ok(Seq::empty())
    } else {
        match spec_parse_doc_line(lines[0]) {
            Err(e) => Err(e),
            Ok(d) => match spec_parse_doc_lines(lines.skip(1)) {
                Ok(ds) => Ok(seq![d] + ds),
                Err(e) => Err(e),
            },
        }
    }
}

/// A whole documentation block: the lines before the `# Args` marker are
/// free help text, and each line after it describes one argument.
pub open spec fn spec_parse_doc_block(lines: Seq<Seq<char>>) -> Result<
    (Seq<char>, Seq<DocDataModel>),
    SchemaErrorModel,
> {
    let k = spec_marker_index(lines);
    let help = spec_join_lines(lines.take(k));
    if k == lines.len() {
        Ok((help, Seq::empty()))
    } else {
        match spec_parse_doc_lines(lines.skip(k + 1)) {
            Ok(ds) => Ok((help, ds)),
            Err(e) => Err(e),
        }
    }
}

/// Splits a documentation block into its help text and its parsed
/// argument lines, stopping at the first malformed line.
pub fn parse_doc_block(lines: &Vec<String>) -> (r: Result<(String, Vec<DocData>), SchemaError>)
    ensures
        (match r {
            Ok(p) => spec_parse_doc_block(lines.deep_view()) == Ok::<
                (Seq<char>, Seq<DocDataModel>),
                SchemaErrorModel,
            >((p.0@, p.1.deep_view())),
            Err(e) => spec_parse_doc_block(lines.deep_view()) == Err::<
                (Seq<char>, Seq<DocDataModel>),
                SchemaErrorModel,
            >(e@),
        }),
{
    let ghost full = lines.deep_view();
    let n = lines.len();
    let mut k: usize = 0;
    while k < n && !str_eq(trim_str(lines[k].as_str()).as_str(), "# Args")
        invariant
            0 <= k <= n,
            n == lines@.len(),
            full == lines.deep_view(),
            forall|j: int| 0 <= j < k ==> spec_trim(#[trigger] full[j]) != "# Args"@,
        decreases n - k,
    {
        proof {
            assert(full[k as int] == lines@[k as int]@);
        }
        k = k + 1;
    }
    proof {
        if k < n {
            assert(full[k as int] == lines@[k as int]@);
        }
        lemma_marker_index_at(full, k as int);
    }
    let mut help = String::new();
    let mut j: usize = 0;
    proof {
        reveal_strlit("\n");
        assert(full.take(0) =~= Seq::<Seq<char>>::empty());
    }
    while j < k
        invariant
            0 <= j <= k <= n,
            n == lines@.len(),
            full == lines.deep_view(),
            help@ == spec_join_lines(full.take(j as int)),
            "\n"@ == seq!['\n'],
        decreases k - j,
    {
        proof {
            assert(full[j as int] == lines@[j as int]@);
            lemma_join_lines_push(full.take(j as int), full[j as int]);
            assert(full.take(j as int).push(full[j as int]) =~= full.take(j + 1));
        }
        if j > 0 {
            help.append("\n");
        }
        help.append(lines[j].as_str());
        j = j + 1;
    }
    if k == n {
        let no_args: Vec<DocData> = Vec::new();
        proof {
            assert(no_args.deep_view() =~= Seq::<DocDataModel>::empty());
        }
        return Ok((help, no_args));
    }
    let mut args: Vec<DocData> = Vec::new();
    let mut i: usize = k + 1;
    proof {
        assert(args.deep_view() =~= Seq::<DocDataModel>::empty());
        match spec_parse_doc_lines(full.skip(k + 1)) {
            Ok(ds) => {
                assert(args.deep_view() + ds =~= ds);
            },
            Err(_) => {},
        }
    }
    while i < n
        invariant
            k + 1 <= i <= n,
            n == lines@.len(),
            full == lines.deep_view(),
            spec_marker_index(full) == k,
            k < n,
            help@ == spec_join_lines(full.take(k as int)),
            (match spec_parse_doc_lines(full.skip(i as int)) {
                Ok(ds) => spec_parse_doc_lines(full.skip(k + 1)) == Ok::<
                    Seq<DocDataModel>,
                    SchemaErrorModel,
                >(args.deep_view() + ds),
                Err(e) => spec_parse_doc_lines(full.skip(k + 1)) == Err::<
                    Seq<DocDataModel>,
                    SchemaErrorModel,
                >(e),
            }),
        decreases n - i,
    {
        proof {
            assert(full[i as int] == lines@[i as int]@);
            assert(full.skip(i as int)[0] == full[i as int]);
            assert(full.skip(i as int).skip(1) =~= full.skip(i as int + 1));
        }
        match DocData::from_str(lines[i].as_str()) {
            Ok(d) => {
                let ghost pre = args.deep_view();
                args.push(d);
                proof {
                    assert(args.deep_view() =~= pre.push(args@[args@.len() - 1]@));
                    match spec_parse_doc_lines(full.skip(i as int + 1)) {
                        Ok(ds) => {
                            assert(pre.push(args@[args@.len() - 1]@) + ds =~= pre + (seq![
                                args@[args@.len() - 1]@,
                            ] + ds));
                        },
                        Err(_) => {},
                    }
                }
            },
            Err(e) => {
                return Err(e);
            },
        }
        i = i + 1;
    }
    proof {
        assert(full.skip(n as int) =~= Seq::<Seq<char>>::empty());
        match spec_parse_doc_lines(full.skip(k + 1)) {
            Ok(ds) => {
                assert(args.deep_view() + Seq::<DocDataModel>::empty() =~= args.deep_view());
            },
            Err(_) => {},
        }
    }
    Ok((help, args))
}

} // verus!
