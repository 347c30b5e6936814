//! Product identity shown to users: name, version, repository and build.

use vstd::prelude::*;

use crate::fmt::{decimal, decimal_chars};
use crate::text::{append_chars, append_str, string_from_str};

verus! {

/// The product's name.
pub const PRODUCT_NAME: &'static str = "tz-player";

/// The product's one-line description.
pub const PRODUCT_DESCRIPTION: &'static str = "TaggedZ's terminal music player (Rust rewrite)";

/// Product, version and build facts, safe to show or log anywhere: nothing
/// in them is specific to the user or the machine.
#[derive(Debug, Clone)]
pub struct AboutInfo {
    pub name: &'static str,
    pub description: &'static str,
    pub version: &'static str,
    pub repository: &'static str,
    pub license: &'static str,
    pub schema_version: i32,
    pub target: String,
    pub profile: &'static str,
}

/// The decimal rendering of a signed number.
pub open spec fn signed_decimal(n: int) -> Seq<char> {
    if n < 0 { seq!['-'] + decimal((-n) as nat) } else { decimal(n as nat) }
}

pub(crate) fn append_signed(s: &mut String, n: i32)
    ensures
        final(s)@ == old(s)@ + signed_decimal(n as int),
{
    if n < 0 {
        let mut v: Vec<char> = Vec::new();
        v.push('-');
        let magnitude: u64 = (0i64 - (n as i64)) as u64;
        let digits = decimal_chars(magnitude);
        crate::fmt::extend_chars(&mut v, &digits);
        assert(v@ =~= seq!['-'] + decimal((-(n as int)) as nat));
        append_chars(s, &v);
    } else {
        let digits = decimal_chars(n as u64);
        append_chars(s, &digits);
    }
}

impl AboutInfo {
    /// The condensed single line for status bars and footers.
    pub fn tui_line(&self) -> (r: String)
        ensures
            r@ == self.name@ + " v"@ + self.version@ + " — "@ + self.repository@
                + "  (see: tz-player about)"@,
    {
        let mut s = string_from_str(self.name);
        append_str(&mut s, " v");
        append_str(&mut s, self.version);
        append_str(&mut s, " — ");
        append_str(&mut s, self.repository);
        append_str(&mut s, "  (see: tz-player about)");
        s
    }

    /// The full multi-line description.
    pub fn render(&self) -> (r: String)
        ensures
            r@ == self.name@ + " v"@ + self.version@ + "\n"@ + self.description@ + "\n"@
                + "Repository: "@ + self.repository@ + "\n"@ + "License:    "@ + self.license@
                + "\n"@ + "Schema:     v"@ + signed_decimal(self.schema_version as int) + "\n"@
                + "Target:     "@ + self.target@ + " ("@ + self.profile@ + ")"@,
    {
        let mut s = string_from_str(self.name);
        append_str(&mut s, " v");
        append_str(&mut s, self.version);
        append_str(&mut s, "\n");
        append_str(&mut s, self.description);
        append_str(&mut s, "\n");
        append_str(&mut s, "Repository: ");
        append_str(&mut s, self.repository);
        append_str(&mut s, "\n");
        append_str(&mut s, "License:    ");
        append_str(&mut s, self.license);
        append_str(&mut s, "\n");
        append_str(&mut s, "Schema:     v");
        append_signed(&mut s, self.schema_version);
        append_str(&mut s, "\n");
        append_str(&mut s, "Target:     ");
        append_str(&mut s, self.target.as_str());
        append_str(&mut s, " (");
        append_str(&mut s, self.profile);
        append_str(&mut s, ")");
        s
    }
}

} // verus!
