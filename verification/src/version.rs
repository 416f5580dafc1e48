//! The version of an installation: where it is read from, and how it is shown.

use vstd::prelude::*;
use vstd::string::StringExecFns;
use crate::files::FileStore;
use crate::helpers::{join, joined, root_preset_dir, root_preset_path};

verus! {

/// Why the version of an installation could not be told.
#[derive(Clone, Copy, Debug, PartialEq, Eq, Structural)]
pub enum InstallError {
    /// The directory does not hold the preset that every installation has.
    NotAnInstallation,
    /// That preset does not tell its version.
    MalformedInstallation,
}

/// The path of the preset that every installation at `root` has, and whose
/// version is the installation's.
pub open spec fn reference_document(root: Seq<char>) -> Seq<char> {
    joined(root_preset_path(root), "Plain (default).json"@)
}

/// The path of the preset whose version is the installation's.
pub fn reference_document_path(root: &str) -> (path: String)
    ensures
        path@ == reference_document(root@),
{
    let dir = root_preset_dir(root);
    join(dir.as_str(), "Plain (default).json")
}

/// The version of the installation at `root`.
///
/// `marker` is the version that decoding the reference preset gave, `None`
/// if the preset could not be decoded or tells no version; it is looked at
/// only if the preset is present. The version is returned as it was read.
pub fn get_ks_version(files: &FileStore, root: &str, marker: Option<u32>) -> (result: Result<
    u32,
    InstallError,
>)
    ensures
        match result {
            Err(InstallError::NotAnInstallation) => !files@.contains_key(reference_document(root@)),
            Err(InstallError::MalformedInstallation) => files@.contains_key(
                reference_document(root@),
            ) && marker is None,
            Ok(version) => files@.contains_key(reference_document(root@)) && marker == Some(
                version,
            ),
        },
{
    let path = reference_document_path(root);
    if !files.contains(path.as_str()) {
        return Err(InstallError::NotAnInstallation);
    }
    match marker {
        Some(version) => Ok(version),
        None => Err(InstallError::MalformedInstallation),
    }
}

/// The character of a digit below sixteen, with capitals for ten to fifteen.
pub open spec fn hex_digit(d: int) -> char {
    if d == 0 {
        '0'
    } else if d == 1 {
        '1'
    } else if d == 2 {
        '2'
    } else if d == 3 {
        '3'
    } else if d == 4 {
        '4'
    } else if d == 5 {
        '5'
    } else if d == 6 {
        '6'
    } else if d == 7 {
        '7'
    } else if d == 8 {
        '8'
    } else if d == 9 {
        '9'
    } else if d == 10 {
        'A'
    } else if d == 11 {
        'B'
    } else if d == 12 {
        'C'
    } else if d == 13 {
        'D'
    } else if d == 14 {
        'E'
    } else {
        'F'
    }
}

/// The digits of `n` to the base sixteen, without leading zeros.
pub open spec fn upper_hex(n: nat) -> Seq<char>
    decreases n,
{
    if n < 16 {
        seq![hex_digit(n as int)]
    } else {
        upper_hex(n / 16).push(hex_digit((n % 16) as int))
    }
}

/// How a version is shown: its digits to the base sixteen after `0x`, or
/// `Unknown` if there is none.
pub open spec fn shown_version(version: Option<u32>) -> Seq<char> {
    match version {
        Some(v) => "0x"@ + upper_hex(v as nat),
        None => "Unknown"@,
    }
}

/// The character of a digit below sixteen.
fn hex_digit_char(d: u32) -> (c: char)
    ensures
        c == hex_digit(d as int),
{
    if d == 0 {
        '0'
    } else if d == 1 {
        '1'
    } else if d == 2 {
        '2'
    } else if d == 3 {
        '3'
    } else if d == 4 {
        '4'
    } else if d == 5 {
        '5'
    } else if d == 6 {
        '6'
    } else if d == 7 {
        '7'
    } else if d == 8 {
        '8'
    } else if d == 9 {
        '9'
    } else if d == 10 {
        'A'
    } else if d == 11 {
        'B'
    } else if d == 12 {
        'C'
    } else if d == 13 {
        'D'
    } else if d == 14 {
        'E'
    } else {
        'F'
    }
}

/// The text of one character that shows `c`, a digit to the base sixteen.
fn digit_text(c: char) -> (text: &'static str)
    requires
        exists|d: int| 0 <= d < 16 && c == hex_digit(d),
    ensures
        text@ == seq![c],
{
    proof {
        reveal_strlit("0");
        reveal_strlit("1");
        reveal_strlit("2");
        reveal_strlit("3");
        reveal_strlit("4");
        reveal_strlit("5");
        reveal_strlit("6");
        reveal_strlit("7");
        reveal_strlit("8");
        reveal_strlit("9");
        reveal_strlit("A");
        reveal_strlit("B");
        reveal_strlit("C");
        reveal_strlit("D");
        reveal_strlit("E");
        reveal_strlit("F");
    }
    let text = if c == '0' {
        "0"
    } else if c == '1' {
        "1"
    } else if c == '2' {
        "2"
    } else if c == '3' {
        "3"
    } else if c == '4' {
        "4"
    } else if c == '5' {
        "5"
    } else if c == '6' {
        "6"
    } else if c == '7' {
        "7"
    } else if c == '8' {
        "8"
    } else if c == '9' {
        "9"
    } else if c == 'A' {
        "A"
    } else if c == 'B' {
        "B"
    } else if c == 'C' {
        "C"
    } else if c == 'D' {
        "D"
    } else if c == 'E' {
        "E"
    } else {
        "F"
    };
    assert(text@ =~= seq![c]);
    text
}

/// Appends the digits of `n` to the base sixteen.
fn push_hex(text: &mut String, n: u32)
    ensures
        final(text)@ == old(text)@ + upper_hex(n as nat),
    decreases n,
{
    if n >= 16 {
        push_hex(text, n / 16);
    }
    let digit = hex_digit_char(n % 16);
    text.append(digit_text(digit));
    proof {
        if n >= 16 {
            assert(old(text)@ + upper_hex((n / 16) as nat).push(hex_digit((n % 16) as int)) =~= (
            old(text)@ + upper_hex((n / 16) as nat)) + seq![digit]);
        } else {
            assert(old(text)@ + seq![hex_digit(n as int)] =~= old(text)@ + seq![digit]);
        }
    }
}

/// The text that shows a version.
pub fn maybe_format_version(version: Option<u32>) -> (text: String)
    ensures
        text@ == shown_version(version),
{
    if let Some(ver) = version {
        let mut text = String::from_str("0x");
        push_hex(&mut text, ver);
        text
    } else {
        String::from_str("Unknown")
    }
}

/// The four decimal digits of a number from 1000 to 9999.
pub open spec fn four_digits(v: int) -> Seq<char> {
    seq![hex_digit(v / 1000), hex_digit(v / 100 % 10), hex_digit(v / 10 % 10), hex_digit(v % 10)]
}

/// A version of four decimal digits: major, minor, patch and revision.
#[derive(Clone, Copy, Debug, PartialEq, Eq, Hash)]
pub struct Version(char, char, char, char);

impl Version {
    /// Every part is a decimal digit.
    #[verifier::type_invariant]
    spec fn decimal(self) -> bool {
        &&& exists|d: int| 0 <= d < 10 && self.0 == hex_digit(d)
        &&& exists|d: int| 0 <= d < 10 && self.1 == hex_digit(d)
        &&& exists|d: int| 0 <= d < 10 && self.2 == hex_digit(d)
        &&& exists|d: int| 0 <= d < 10 && self.3 == hex_digit(d)
    }

    /// The four digits.
    pub closed spec fn digits(&self) -> Seq<char> {
        seq![self.0, self.1, self.2, self.3]
    }

    /// The version that the number `v` stands for, if `v` has four decimal
    /// digits.
    pub fn from_int(v: u16) -> (version: Option<Version>)
        ensures
            version is Some <==> 1000 <= v <= 9999,
            version matches Some(parsed) ==> parsed.digits() == four_digits(v as int),
    {
        if v < 1000 || v > 9999 {
            return None;
        }
        let wide: u32 = v as u32;
        let maj = hex_digit_char(wide / 1000);
        let min = hex_digit_char(wide / 100 % 10);
        let pat = hex_digit_char(wide / 10 % 10);
        let rev = hex_digit_char(wide % 10);
        Some(Version(maj, min, pat, rev))
    }

    /// The text of the version: its four digits with dots between them.
    pub fn format(&self) -> (text: String)
        ensures
            text@ == seq![
                self.digits()[0],
                '.',
                self.digits()[1],
                '.',
                self.digits()[2],
                '.',
                self.digits()[3],
            ],
    {
        proof {
            use_type_invariant(self);
            reveal_strlit(".");
        }
        let mut text = String::from_str(digit_text(self.0));
        text.append(".");
        text.append(digit_text(self.1));
        text.append(".");
        text.append(digit_text(self.2));
        text.append(".");
        text.append(digit_text(self.3));
        assert(text@ =~= seq![self.0, '.', self.1, '.', self.2, '.', self.3]);
        text
    }
}

} // verus!
