//! Destination names: the base name of a file, its numbered variants, and the
//! bucket directory under the destination root.

use vstd::prelude::*;
use vstd::string::*;

verus! {

/// The character that stands for the decimal digit `d`.
pub open spec fn digit_char(d: nat) -> char {
    if d == 0 {
        '0'
    } else if d == 1 {
        '1'
    } else if d == 2 {
        '2'
    } else if d == 3 {
        '3'
    } else if d == 4 {
        '4'
    } else if d == 5 {
        '5'
    } else if d == 6 {
        '6'
    } else if d == 7 {
        '7'
    } else if d == 8 {
        '8'
    } else {
        '9'
    }
}

/// The decimal numeral of `n`, most significant digit first, without leading
/// zeros.
pub open spec fn decimal(n: nat) -> Seq<char>
    decreases n,
{
    if n < 10 {
        seq![digit_char(n)]
    } else {
        decimal(n / 10).push(digit_char(n % 10))
    }
}

/// The file name of variant `variant` of `stem.ext`: the base name itself for
/// variant 0, and `stem-N.ext` for variant N > 0.
pub open spec fn variant_name(stem: Seq<char>, ext: Seq<char>, variant: nat) -> Seq<char> {
    if variant == 0 {
        stem + seq!['.'] + ext
    } else {
        stem + seq!['-'] + decimal(variant) + seq!['.'] + ext
    }
}

/// The path of `name` inside the directory `dir`.
pub open spec fn path_in(dir: Seq<char>, name: Seq<char>) -> Seq<char> {
    dir + seq!['/'] + name
}

/// The directory of the bucket `year`/`month` under `root`.
pub open spec fn bucket_path(root: Seq<char>, year: Seq<char>, month: Seq<char>) -> Seq<char> {
    path_in(path_in(root, year), month)
}

/// The digit that the character `c` stands for.
pub open spec fn digit_value(c: char) -> nat {
    if c == '0' {
        0
    } else if c == '1' {
        1
    } else if c == '2' {
        2
    } else if c == '3' {
        3
    } else if c == '4' {
        4
    } else if c == '5' {
        5
    } else if c == '6' {
        6
    } else if c == '7' {
        7
    } else if c == '8' {
        8
    } else {
        9
    }
}

/// The number that the decimal numeral `digits` stands for.
pub open spec fn decimal_value(digits: Seq<char>) -> nat
    decreases digits.len(),
{
    if digits.len() == 0 {
        0
    } else {
        10 * decimal_value(digits.drop_last()) + digit_value(digits.last())
    }
}

/// A numeral stands for the number it was made from.
pub proof fn lemma_decimal_value(n: nat)
    ensures
        decimal_value(decimal(n)) == n,
    decreases n,
{
    if n < 10 {
        assert(decimal(n).drop_last() =~= Seq::<char>::empty());
        assert(decimal_value(decimal(n).drop_last()) == 0);
    } else {
        lemma_decimal_value(n / 10);
        assert(decimal(n).drop_last() =~= decimal(n / 10));
    }
}

/// Different variants of one base name have different names.
pub proof fn lemma_variant_names_differ(stem: Seq<char>, ext: Seq<char>, first: nat, second: nat)
    requires
        first != second,
    ensures
        variant_name(stem, ext, first) != variant_name(stem, ext, second),
{
    let a = variant_name(stem, ext, first);
    let b = variant_name(stem, ext, second);
    let at = stem.len() as int;
    if first == 0 {
        assert(a[at] == '.');
        assert(b[at] == '-');
    } else if second == 0 {
        assert(a[at] == '-');
        assert(b[at] == '.');
    } else if a == b {
        let m = decimal(first);
        let n = decimal(second);
        assert(a.len() == stem.len() + 1 + m.len() + 1 + ext.len());
        assert(b.len() == stem.len() + 1 + n.len() + 1 + ext.len());
        assert(a.subrange(at + 1, at + 1 + m.len()) =~= m);
        assert(b.subrange(at + 1, at + 1 + n.len()) =~= n);
        lemma_decimal_value(first);
        lemma_decimal_value(second);
    }
}

/// Different names in one directory have different paths.
pub proof fn lemma_paths_differ(dir: Seq<char>, first: Seq<char>, second: Seq<char>)
    requires
        first != second,
    ensures
        path_in(dir, first) != path_in(dir, second),
{
    let a = path_in(dir, first);
    let b = path_in(dir, second);
    if a == b {
        let at = dir.len() as int;
        assert(a.subrange(at + 1, a.len() as int) =~= first);
        assert(b.subrange(at + 1, b.len() as int) =~= second);
    }
}

/// A one-character string for a decimal digit.
fn digit_text(d: usize) -> (text: &'static str)
    requires
        d < 10,
    ensures
        text@ == seq![digit_char(d as nat)],
{
    proof {
        reveal_strlit("0");
        reveal_strlit("1");
        reveal_strlit("2");
        reveal_strlit("3");
        reveal_strlit("4");
        reveal_strlit("5");
        reveal_strlit("6");
        reveal_strlit("7");
        reveal_strlit("8");
        reveal_strlit("9");
    }
    let text = if d == 0 {
        "0"
    } else if d == 1 {
        "1"
    } else if d == 2 {
        "2"
    } else if d == 3 {
        "3"
    } else if d == 4 {
        "4"
    } else if d == 5 {
        "5"
    } else if d == 6 {
        "6"
    } else if d == 7 {
        "7"
    } else if d == 8 {
        "8"
    } else {
        "9"
    };
    assert(text@ =~= seq![digit_char(d as nat)]);
    text
}

/// The decimal numeral of `n`.
pub fn decimal_text(n: usize) -> (text: String)
    ensures
        text@ == decimal(n as nat),
    decreases n,
{
    if n < 10 {
        String::from_str(digit_text(n))
    } else {
        let mut text = decimal_text(n / 10);
        text.append(digit_text(n % 10));
        text
    }
}

/// The file name of variant `variant` of `stem.ext`.
pub fn variant_file_name(stem: &str, ext: &str, variant: usize) -> (name: String)
    ensures
        name@ == variant_name(stem@, ext@, variant as nat),
{
    proof {
        reveal_strlit("-");
        reveal_strlit(".");
    }
    let mut name = String::from_str(stem);
    if variant != 0 {
        name.append("-");
        assert(name@ =~= stem@ + seq!['-']);
        let number = decimal_text(variant);
        name.append(number.as_str());
    }
    name.append(".");
    name.append(ext);
    assert(name@ =~= variant_name(stem@, ext@, variant as nat));
    name
}

/// The path of the file `name` inside the directory `dir`.
pub fn join_path(dir: &str, name: &str) -> (path: String)
    ensures
        path@ == path_in(dir@, name@),
{
    proof {
        reveal_strlit("/");
    }
    let mut path = String::from_str(dir);
    path.append("/");
    path.append(name);
    assert(path@ =~= path_in(dir@, name@));
    path
}

/// A destination slot: a directory and the name of a file in it.
#[derive(Debug)]
pub struct Destination {
    pub dir: String,
    pub file_name: String,
}

/// A `Destination` as a mathematical value.
pub struct DestinationView {
    pub dir: Seq<char>,
    pub file_name: Seq<char>,
}

impl DestinationView {
    /// The path that this destination stands for.
    pub open spec fn path(self) -> Seq<char> {
        path_in(self.dir, self.file_name)
    }
}

impl View for Destination {
    type V = DestinationView;

    open spec fn view(&self) -> DestinationView {
        DestinationView { dir: self.dir@, file_name: self.file_name@ }
    }
}

impl Destination {

    /// The file `file_name` in the directory `dir`.
    pub fn new(dir: &str, file_name: &str) -> (dst: Destination)
        ensures
            dst@ == (DestinationView { dir: dir@, file_name: file_name@ }),
    {
        Destination { dir: String::from_str(dir), file_name: String::from_str(file_name) }
    }

    /// The path of this destination as text.
    pub fn path_text(&self) -> (path: String)
        ensures
            path@ == self@.path(),
    {
        join_path(self.dir.as_str(), self.file_name.as_str())
    }
}

/// Renames `dst` to variant `move_count` of `file_stem.file_ext`, in the same
/// directory. Variant 0 is the name that `dst` already has, so `dst` is left
/// as it is.
pub fn incremented_variant(
    dst: &mut Destination,
    file_stem: &str,
    file_ext: &str,
    move_count: usize,
)
    ensures
        final(dst).dir@ == old(dst).dir@,
        move_count == 0 ==> final(dst).file_name@ == old(dst).file_name@,
        move_count != 0 ==> final(dst).file_name@ == variant_name(
            file_stem@,
            file_ext@,
            move_count as nat,
        ),
{
    if move_count != 0 {
        dst.file_name = variant_file_name(file_stem, file_ext, move_count);
    }
}

} // verus!
