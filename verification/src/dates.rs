//! The year and month bucket of a file, read from its name or from the name
//! of the folder that holds it.

use vstd::prelude::*;
use vstd::string::*;

verus! {

/// The naming convention of dated files and folders: an optional device
/// prefix in either case, then year, month and day as four, two and two
/// digits, each pair optionally parted by `-` or `_`, then anything.
pub const YEAR_DATE_RE: &'static str = "^(?i)(IMG_|VID_|MVIMG_)?(\\d{4})[-_]?(\\d{2})[-_]?(\\d{2}).*$";

/// The capture group that holds the year.
pub const YEAR_GROUP: usize = 2;

/// The capture group that holds the month.
pub const MONTH_GROUP: usize = 3;

/// The error of `regex::Regex::new`, carried through as it is.
#[verifier::external_type_specification]
#[verifier::external_body]
pub struct ExRegexError(regex::Error);

/// Whether `regex::Regex::new` accepts `pattern`: it returns `Ok` where the
/// pattern is well formed and what it compiles to is within the size limit
/// that `Regex::new` sets, and `Err` else.
pub uninterp spec fn regex_accepts(pattern: Seq<char>) -> bool;

/// What `regex::Regex::captures` finds for `haystack` with the regular
/// expression that `regex::Regex::new` compiles from `pattern`: `None` where
/// nothing matches, else the text of each capture group in order, group 0
/// being the whole match, with `None` for a group that took no part.
pub uninterp spec fn regex_captures(pattern: Seq<char>, haystack: Seq<char>) -> Option<
    Seq<Option<Seq<char>>>,
>;

/// The capture groups of a search as a mathematical value.
pub open spec fn groups_view(groups: Option<Vec<Option<String>>>) -> Option<
    Seq<Option<Seq<char>>>,
> {
    match groups {
        Some(texts) => Some(
            Seq::new(
                texts@.len(),
                |i: int|
                    match texts@[i] {
                        Some(text) => Some(text@),
                        None => None,
                    },
            ),
        ),
        None => None,
    }
}

/// Compiles `pattern` with `regex::Regex::new` and searches `haystack` with
/// `regex::Regex::captures`. An `Err` is the error of the compilation, which
/// comes exactly where `regex_accepts` names the pattern as not accepted: the
/// search itself cannot fail. Of an `Ok` the contract claims only that it is
/// what `regex_captures` names: the groups that `regex::Captures::iter`
/// yields, each as the text of its match.
#[verifier::external_body]
fn search(pattern: &str, haystack: &str) -> (found: Result<
    Option<Vec<Option<String>>>,
    regex::Error,
>)
    ensures
        found is Ok <==> regex_accepts(pattern@),
        found matches Ok(groups) ==> groups_view(groups) == regex_captures(pattern@, haystack@),
{
    let re = regex::Regex::new(pattern)?;
    Ok(
        re.captures(haystack).map(
            |caps| caps.iter().map(|group| group.map(|m| m.as_str().to_string())).collect(),
        ),
    )
}

/// The message of a compilation error, as `regex::Error` displays it. Nothing
/// is claimed of the text.
#[verifier::external_body]
fn error_text(error: &regex::Error) -> (text: String) {
    error.to_string()
}

/// A pattern that could not be compiled.
#[derive(Debug)]
pub struct PatternError {
    /// What the compiler of the pattern said.
    pub message: String,
}

/// A year and month as they stand in a name. Neither is checked for its
/// range: a month `14` is a bucket like any other.
#[derive(Debug)]
pub struct DateBucket {
    pub year: String,
    pub month: String,
}

impl View for DateBucket {
    type V = (Seq<char>, Seq<char>);

    open spec fn view(&self) -> (Seq<char>, Seq<char>) {
        (self.year@, self.month@)
    }
}

/// A pair of strings as a mathematical value.
pub open spec fn pair_view(pair: Option<(String, String)>) -> Option<(Seq<char>, Seq<char>)> {
    match pair {
        Some((year, month)) => Some((year@, month@)),
        None => None,
    }
}

/// A bucket as a mathematical value.
pub open spec fn bucket_view(bucket: Option<DateBucket>) -> Option<(Seq<char>, Seq<char>)> {
    match bucket {
        Some(b) => Some(b@),
        None => None,
    }
}

/// The year and month among the capture groups of a search: the texts of the
/// year group and of the month group, where there was a match and both groups
/// took part in it.
pub open spec fn year_month_of(groups: Option<Seq<Option<Seq<char>>>>) -> Option<
    (Seq<char>, Seq<char>),
> {
    match groups {
        Some(texts) => if MONTH_GROUP < texts.len() && texts[YEAR_GROUP as int] is Some
            && texts[MONTH_GROUP as int] is Some {
            Some((texts[YEAR_GROUP as int]->0, texts[MONTH_GROUP as int]->0))
        } else {
            None
        },
        None => None,
    }
}

/// The first of two candidates that is there.
pub open spec fn first_of(
    first: Option<(Seq<char>, Seq<char>)>,
    second: Option<(Seq<char>, Seq<char>)>,
) -> Option<(Seq<char>, Seq<char>)> {
    if first is Some {
        first
    } else {
        second
    }
}

/// The year and month that `pattern` finds for a file: those of the file stem
/// where it yields them, else those of the containing folder.
pub open spec fn year_month_spec(
    pattern: Seq<char>,
    containing_dir: Seq<char>,
    file_stem: Seq<char>,
) -> Option<(Seq<char>, Seq<char>)> {
    first_of(
        year_month_of(regex_captures(pattern, file_stem)),
        year_month_of(regex_captures(pattern, containing_dir)),
    )
}

/// Picks the year and month out of the capture groups of a search.
pub fn year_month_from_groups(groups: &Option<Vec<Option<String>>>) -> (found: Option<
    (String, String),
>)
    ensures
        pair_view(found) == year_month_of(groups_view(*groups)),
{
    match groups {
        Some(texts) => {
            if MONTH_GROUP < texts.len() {
                match (&texts[YEAR_GROUP], &texts[MONTH_GROUP]) {
                    (Some(year), Some(month)) => Some((year.clone(), month.clone())),
                    _ => None,
                }
            } else {
                None
            }
        },
        None => None,
    }
}

/// The year and month of a file under the naming convention `pattern`: the
/// file stem is tried first, the name of the containing folder second, and
/// `None` says that neither yields a date. An `Err` comes exactly where
/// `pattern` is not accepted as a regular expression. The answer depends on
/// the three texts alone: the same question has the same answer every time.
pub fn extract_year_month(pattern: &str, containing_dir: &str, file_stem: &str) -> (found: Result<
    Option<(String, String)>,
    PatternError,
>)
    ensures
        found is Ok <==> regex_accepts(pattern@),
        found matches Ok(pair) ==> pair_view(pair) == year_month_spec(
            pattern@,
            containing_dir@,
            file_stem@,
        ),
{
    let in_stem = match search(pattern, file_stem) {
        Ok(groups) => year_month_from_groups(&groups),
        Err(error) => {
            return Err(PatternError { message: error_text(&error) });
        },
    };
    if in_stem.is_some() {
        return Ok(in_stem);
    }
    match search(pattern, containing_dir) {
        Ok(groups) => Ok(year_month_from_groups(&groups)),
        Err(error) => Err(PatternError { message: error_text(&error) }),
    }
}

/// The bucket of a file under `YEAR_DATE_RE`: that of its stem where the stem
/// is dated, else that of its folder, else none. An `Err` comes exactly where
/// `YEAR_DATE_RE` is not accepted as a regular expression, whatever the
/// names. The answer depends on the two names alone.
pub fn extract_bucket(containing_dir: &str, file_stem: &str) -> (found: Result<
    Option<DateBucket>,
    PatternError,
>)
    ensures
        found is Ok <==> regex_accepts(YEAR_DATE_RE@),
        found matches Ok(bucket) ==> bucket_view(bucket) == year_month_spec(
            YEAR_DATE_RE@,
            containing_dir@,
            file_stem@,
        ),
{
    match extract_year_month(YEAR_DATE_RE, containing_dir, file_stem) {
        Ok(Some((year, month))) => Ok(Some(DateBucket { year, month })),
        Ok(None) => Ok(None),
        Err(error) => Err(error),
    }
}

/// Bucket determinism. Two answers of `extract_bucket` to the same question
/// agree: both are buckets or both are errors, and where they are buckets,
/// they are the same bucket, or both none. What is required of the two is
/// the contract of `extract_bucket`, and nothing else.
pub proof fn lemma_bucket_is_determined(
    containing_dir: Seq<char>,
    file_stem: Seq<char>,
    first: Result<Option<DateBucket>, PatternError>,
    second: Result<Option<DateBucket>, PatternError>,
)
    requires
        first is Ok <==> regex_accepts(YEAR_DATE_RE@),
        first matches Ok(bucket) ==> bucket_view(bucket) == year_month_spec(
            YEAR_DATE_RE@,
            containing_dir,
            file_stem,
        ),
        second is Ok <==> regex_accepts(YEAR_DATE_RE@),
        second matches Ok(bucket) ==> bucket_view(bucket) == year_month_spec(
            YEAR_DATE_RE@,
            containing_dir,
            file_stem,
        ),
    ensures
        first is Ok <==> second is Ok,
        first matches Ok(one) ==> (second matches Ok(other) && bucket_view(one) == bucket_view(
            other,
        )),
{
}

} // verus!
