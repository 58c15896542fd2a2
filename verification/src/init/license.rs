//! The licenses that a new project can be put under.

use crate::error::{ErrorView, PoetryError};
use crate::text::equal;
use vstd::prelude::*;

verus! {

/// A license that this tool knows.
#[derive(Copy, Clone, Debug, PartialEq, Eq)]
pub enum Kind {
    Mit,
    Apache2,
}

/// The text that `str::to_lowercase` makes of a text.
pub uninterp spec fn lowercase(text: Seq<char>) -> Seq<char>;

/// Calls `str::to_lowercase` of the standard library. The contract gives the
/// outcome the name [`lowercase`] and claims nothing else: which characters
/// have a lower case, and what it is, is laid down by Unicode.
#[verifier::external_body]
fn to_lowercase(text: &str) -> (lower: String)
    ensures
        lower@ == lowercase(text@),
{
    text.to_lowercase()
}

/// The license that an identifier names, given the identifier in lower
/// case: `mit` or `apache-2.0`. Any other text is an unknown license, and
/// the error holds the identifier as it was written.
pub open spec fn kind_of(lower: Seq<char>, value: Seq<char>) -> Result<Kind, ErrorView> {
    if lower == "mit"@ {
        Ok(Kind::Mit)
    } else if lower == "apache-2.0"@ {
        Ok(Kind::Apache2)
    } else {
        Err(ErrorView::UnknownLicense { license: value })
    }
}

impl Kind {
    /// The identifier of the license, as manifests write it.
    pub open spec fn identifier(self) -> Seq<char> {
        match self {
            Kind::Mit => "MIT"@,
            Kind::Apache2 => "Apache-2.0"@,
        }
    }

    /// The identifier of the license, as manifests write it.
    pub fn to_string(&self) -> (s: String)
        ensures
            s@ == self.identifier(),
    {
        match *self {
            Kind::Mit => "MIT".to_owned(),
            Kind::Apache2 => "Apache-2.0".to_owned(),
        }
    }

    /// The license that `value` names, from `value` in lower case.
    pub fn from_lowercase(lower: &str, value: String) -> (r: Result<Kind, PoetryError>)
        ensures
            r matches Ok(k) ==> kind_of(lower@, value@) == Ok::<Kind, ErrorView>(k),
            r matches Err(e) ==> kind_of(lower@, value@) == Err::<Kind, ErrorView>(e@),
    {
        if equal(lower, "mit") {
            Ok(Kind::Mit)
        } else if equal(lower, "apache-2.0") {
            Ok(Kind::Apache2)
        } else {
            Err(PoetryError::UnknownLicense { license: value })
        }
    }

    /// The license that `value` names, upper and lower case alike.
    pub fn try_from(value: String) -> (r: Result<Kind, PoetryError>)
        ensures
            r matches Ok(k) ==> kind_of(lowercase(value@), value@) == Ok::<Kind, ErrorView>(k),
            r matches Err(e) ==> kind_of(lowercase(value@), value@) == Err::<Kind, ErrorView>(e@),
    {
        let lower = to_lowercase(value.as_str());
        Kind::from_lowercase(lower.as_str(), value)
    }
}

/// What a license text is filled in with: the holder of the copyright and
/// the year from which it runs.
#[derive(Debug, PartialEq, Eq)]
pub struct LicenseFormatOptions {
    pub name: String,
    pub year: i32,
}

/// A license, with what its text is to be filled in with.
#[derive(Debug, PartialEq, Eq)]
pub struct License {
    pub unfilled: Kind,
    pub fmt_options: LicenseFormatOptions,
}

/// The character of a decimal digit.
pub open spec fn digit(d: int) -> char {
    if d == 0 {
        '0'
    } else if d == 1 {
        '1'
    } else if d == 2 {
        '2'
    } else if d == 3 {
        '3'
    } else if d == 4 {
        '4'
    } else if d == 5 {
        '5'
    } else if d == 6 {
        '6'
    } else if d == 7 {
        '7'
    } else if d == 8 {
        '8'
    } else {
        '9'
    }
}

/// A natural number in decimal digits, without leading zeros.
pub open spec fn digits(n: nat) -> Seq<char>
    decreases n,
{
    if n < 10 {
        seq![digit(n as int)]
    } else {
        digits(n / 10).push(digit((n % 10) as int))
    }
}

/// An integer in decimal digits, with `-` before a negative one.
pub open spec fn decimal(n: int) -> Seq<char> {
    if n < 0 {
        seq!['-'] + digits((-n) as nat)
    } else {
        digits(n as nat)
    }
}

/// What stands before the year in the text of the MIT license.
pub open spec fn mit_head() -> Seq<char> {
    "MIT License\n\nCopyright (c) "@
}

/// What stands after the holder in the text of the MIT license.
pub open spec fn mit_tail() -> Seq<char> {
    "\n\nPermission is hereby granted, free of charge, to any person obtaining a copy\nof this software and associated documentation files (the \"Software\"), to deal\nin the Software without restriction, including without limitation the rights\nto use, copy, modify, merge, publish, distribute, sublicense, and/or sell\ncopies of the Software, and to permit persons to whom the Software is\nfurnished to do so, subject to the following conditions:\n\nThe above copyright notice and this permission notice shall be included in all\ncopies or substantial portions of the Software.\n\nTHE SOFTWARE IS PROVIDED \"AS IS\", WITHOUT WARRANTY OF ANY KIND, EXPRESS OR\nIMPLIED, INCLUDING BUT NOT LIMITED TO THE WARRANTIES OF MERCHANTABILITY,\nFITNESS FOR A PARTICULAR PURPOSE AND NONINFRINGEMENT. IN NO EVENT SHALL THE\nAUTHORS OR COPYRIGHT HOLDERS BE LIABLE FOR ANY CLAIM, DAMAGES OR OTHER\nLIABILITY, WHETHER IN AN ACTION OF CONTRACT, TORT OR OTHERWISE, ARISING FROM,\nOUT OF OR IN CONNECTION WITH THE SOFTWARE OR THE USE OR OTHER DEALINGS IN THE\nSOFTWARE.\n"@
}

/// What stands before the year in the notice of the Apache license.
pub open spec fn apache_head() -> Seq<char> {
    "Copyright "@
}

/// What stands after the holder in the notice of the Apache license.
pub open spec fn apache_tail() -> Seq<char> {
    "\n\nLicensed under the Apache License, Version 2.0 (the \"License\");\nyou may not use this file except in compliance with the License.\nYou may obtain a copy of the License at\n\n    http://www.apache.org/licenses/LICENSE-2.0\n\nUnless required by applicable law or agreed to in writing, software\ndistributed under the License is distributed on an \"AS IS\" BASIS,\nWITHOUT WARRANTIES OR CONDITIONS OF ANY KIND, either express or implied.\nSee the License for the specific language governing permissions and\nlimitations under the License.\n"@
}

/// The text of a license, filled in: the year and the holder stand on the
/// copyright line, the year first.
pub open spec fn license_text(kind: Kind, name: Seq<char>, year: int) -> Seq<char> {
    match kind {
        Kind::Mit => mit_head() + decimal(year) + " "@ + name + mit_tail(),
        Kind::Apache2 => apache_head() + decimal(year) + " "@ + name + apache_tail(),
    }
}

/// The text of one decimal digit.
fn digit_text(d: u64) -> (t: &'static str)
    requires
        d < 10,
    ensures
        t@ == seq![digit(d as int)],
{
    proof {
        reveal_strlit("0");
        reveal_strlit("1");
        reveal_strlit("2");
        reveal_strlit("3");
        reveal_strlit("4");
        reveal_strlit("5");
        reveal_strlit("6");
        reveal_strlit("7");
        reveal_strlit("8");
        reveal_strlit("9");
    }
    let t = if d == 0 {
        "0"
    } else if d == 1 {
        "1"
    } else if d == 2 {
        "2"
    } else if d == 3 {
        "3"
    } else if d == 4 {
        "4"
    } else if d == 5 {
        "5"
    } else if d == 6 {
        "6"
    } else if d == 7 {
        "7"
    } else if d == 8 {
        "8"
    } else {
        "9"
    };
    proof {
        assert(t@ =~= seq![digit(d as int)]);
    }
    t
}

/// Writes a natural number in decimal digits at the end of `out`.
fn write_digits(n: u64, out: &mut String)
    ensures
        final(out)@ == old(out)@ + digits(n as nat),
    decreases n,
{
    if n >= 10 {
        write_digits(n / 10, out);
    }
    let ghost before = out@;
    out.append(digit_text(n % 10));
    proof {
        if n >= 10 {
            assert(before + seq![digit((n % 10) as int)] =~= old(out)@ + digits(n as nat));
        }
    }
}

/// Writes an integer in decimal digits at the end of `out`.
pub fn write_decimal(n: i32, out: &mut String)
    ensures
        final(out)@ == old(out)@ + decimal(n as int),
{
    if n < 0 {
        proof {
            reveal_strlit("-");
        }
        out.append("-");
        let ghost signed = out@;
        let magnitude: u64 = (0 - (n as i64)) as u64;
        write_digits(magnitude, out);
        proof {
            assert("-"@ =~= seq!['-']);
            assert(signed + digits(magnitude as nat) =~= old(out)@ + decimal(n as int));
        }
    } else {
        write_digits(n as u64, out);
    }
}

impl License {
    /// The text of the license, filled in.
    pub fn to_string(&self) -> (text: String)
        ensures
            text@ == license_text(
                self.unfilled,
                self.fmt_options.name@,
                self.fmt_options.year as int,
            ),
    {
        match self.unfilled {
            Kind::Mit => {
                let mut text = "MIT License\n\nCopyright (c) ".to_owned();
                write_decimal(self.fmt_options.year, &mut text);
                text.append(" ");
                text.append(self.fmt_options.name.as_str());
                text.append(
                    "\n\nPermission is hereby granted, free of charge, to any person obtaining a copy\nof this software and associated documentation files (the \"Software\"), to deal\nin the Software without restriction, including without limitation the rights\nto use, copy, modify, merge, publish, distribute, sublicense, and/or sell\ncopies of the Software, and to permit persons to whom the Software is\nfurnished to do so, subject to the following conditions:\n\nThe above copyright notice and this permission notice shall be included in all\ncopies or substantial portions of the Software.\n\nTHE SOFTWARE IS PROVIDED \"AS IS\", WITHOUT WARRANTY OF ANY KIND, EXPRESS OR\nIMPLIED, INCLUDING BUT NOT LIMITED TO THE WARRANTIES OF MERCHANTABILITY,\nFITNESS FOR A PARTICULAR PURPOSE AND NONINFRINGEMENT. IN NO EVENT SHALL THE\nAUTHORS OR COPYRIGHT HOLDERS BE LIABLE FOR ANY CLAIM, DAMAGES OR OTHER\nLIABILITY, WHETHER IN AN ACTION OF CONTRACT, TORT OR OTHERWISE, ARISING FROM,\nOUT OF OR IN CONNECTION WITH THE SOFTWARE OR THE USE OR OTHER DEALINGS IN THE\nSOFTWARE.\n",
                );
                text
            },
            Kind::Apache2 => {
                let mut text = "Copyright ".to_owned();
                write_decimal(self.fmt_options.year, &mut text);
                text.append(" ");
                text.append(self.fmt_options.name.as_str());
                text.append(
                    "\n\nLicensed under the Apache License, Version 2.0 (the \"License\");\nyou may not use this file except in compliance with the License.\nYou may obtain a copy of the License at\n\n    http://www.apache.org/licenses/LICENSE-2.0\n\nUnless required by applicable law or agreed to in writing, software\ndistributed under the License is distributed on an \"AS IS\" BASIS,\nWITHOUT WARRANTIES OR CONDITIONS OF ANY KIND, either express or implied.\nSee the License for the specific language governing permissions and\nlimitations under the License.\n",
                );
                text
            },
        }
    }
}

} // verus!
