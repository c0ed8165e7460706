//! Whether a manifest says what it must.
use vstd::prelude::*;
use vstd::string::*;

use crate::schema::ComposerJson;
use crate::text::{
    chars_of, is_digit, is_lower, lemma_views_push, lowercase, pieces, split, str_equal, str_views,
    to_lowercase, views,
};

verus! {

/// Why a manifest cannot be taken.
#[derive(Debug, Clone)]
pub enum LoadError {
    Io(String),
    Parse(String),
    Validation(String),
}

impl LoadError {
    /// The message for the user.
    pub fn message(&self) -> (r: String)
        ensures
            r@ == match *self {
                LoadError::Io(e) => "Failed to read file: "@ + e@,
                LoadError::Parse(e) => "Failed to parse JSON: "@ + e@,
                LoadError::Validation(e) => "Validation error: "@ + e@,
            },
    {
        match self {
            LoadError::Io(e) => "Failed to read file: ".to_owned().concat(e.as_str()),
            LoadError::Parse(e) => "Failed to parse JSON: ".to_owned().concat(e.as_str()),
            LoadError::Validation(e) => "Validation error: ".to_owned().concat(e.as_str()),
        }
    }
}

/// The character may stand in a name.
pub open spec fn name_char(c: char) -> bool {
    is_lower(c) || is_digit(c) || c == '-' || c == '_' || c == '.'
}

/// The text is one side of a name.
pub open spec fn name_part(s: Seq<char>) -> bool {
    s.len() > 0 && forall|i: int| 0 <= i < s.len() ==> name_char(#[trigger] s[i])
}

/// The text is a name: a vendor and a package with one slash between them.
pub open spec fn valid_name(s: Seq<char>) -> bool {
    let p = pieces(s, '/');
    p.len() == 2 && name_part(p[0]) && name_part(p[1])
}

fn is_name_part(s: &str) -> (r: bool)
    ensures
        r == name_part(s@),
{
    let v = chars_of(s);
    if v.len() == 0 {
        return false;
    }
    let mut i: usize = 0;
    while i < v.len()
        invariant
            i <= v.len(),
            v@ == s@,
            forall|k: int| 0 <= k < i ==> name_char(#[trigger] s@[k]),
        decreases v.len() - i,
    {
        let c = v[i];
        if !(('a' <= c && c <= 'z') || ('0' <= c && c <= '9') || c == '-' || c == '_' || c == '.') {
            assert(!name_char(s@[i as int]));
            return false;
        }
        i += 1;
    }
    true
}

/// Whether a text is the name of a package.
pub fn is_valid_package_name(name: &str) -> (r: bool)
    ensures
        r == valid_name(name@),
{
    let parts = split(name, '/');
    let ghost all = str_views(parts@);
    assert(all.len() == parts.len());
    if parts.len() != 2 {
        return false;
    }
    assert(all[0] == parts@[0]@ && all[1] == parts@[1]@);
    is_name_part(parts[0]) && is_name_part(parts[1])
}

/// The word names a stability, but for case.
pub open spec fn valid_stability(word: Seq<char>) -> bool {
    let w = lowercase(word);
    w == "dev"@ || w == "alpha"@ || w == "beta"@ || w == "rc"@ || w == "stable"@
}

/// What is wrong with a manifest.
pub open spec fn manifest_errors(json: ComposerJson) -> Seq<Seq<char>> {
    let a = match json.name {
        Some(n) => if valid_name(n@) {
            Seq::empty()
        } else {
            Seq::empty().push(
                "Invalid package name '"@ + n@
                    + "'. Must be lowercase and match vendor/package format"@,
            )
        },
        None => Seq::empty(),
    };
    let b = match json.version {
        Some(v) => if v@.len() > 0 {
            a
        } else {
            a.push("Version cannot be empty if specified"@)
        },
        None => a,
    };
    match json.minimum_stability {
        Some(s) => if valid_stability(s@) {
            b
        } else {
            b.push(
                "Invalid minimum-stability '"@ + s@
                    + "'. Must be one of: [\"dev\", \"alpha\", \"beta\", \"rc\", \"stable\"]"@,
            )
        },
        None => b,
    }
}

/// Whether a manifest says what it must, and what is wrong where it does not.
pub fn validate_composer_json(json: &ComposerJson) -> (r: Result<(), Vec<String>>)
    ensures
        r is Ok <==> manifest_errors(*json).len() == 0,
        r matches Err(e) ==> views(e@) == manifest_errors(*json),
{
    let mut errors: Vec<String> = Vec::new();
    assert(views(errors@) =~= Seq::empty());
    if let Some(n) = &json.name {
        if !is_valid_package_name(n.as_str()) {
            let one = "Invalid package name '".to_owned().concat(n.as_str()).concat(
                "'. Must be lowercase and match vendor/package format",
            );
            proof {
                lemma_views_push(errors@, one);
            }
            errors.push(one);
        }
    }
    if let Some(v) = &json.version {
        if v.as_str().is_empty() {
            let one = "Version cannot be empty if specified".to_owned();
            proof {
                lemma_views_push(errors@, one);
            }
            errors.push(one);
        }
    }
    if let Some(s) = &json.minimum_stability {
        let low = to_lowercase(s.as_str());
        let w = low.as_str();
        if !(str_equal(w, "dev") || str_equal(w, "alpha") || str_equal(w, "beta") || str_equal(
            w,
            "rc",
        ) || str_equal(w, "stable")) {
            let one = "Invalid minimum-stability '".to_owned().concat(s.as_str()).concat(
                "'. Must be one of: [\"dev\", \"alpha\", \"beta\", \"rc\", \"stable\"]",
            );
            proof {
                lemma_views_push(errors@, one);
            }
            errors.push(one);
        }
    }
    assert(views(errors@).len() == errors@.len());
    if errors.len() == 0 {
        Ok(())
    } else {
        Err(errors)
    }
}

} // verus!
