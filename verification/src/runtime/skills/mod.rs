//! The skills format: frontmatter parsing and validation.
pub mod frontmatter;
pub mod line_laws;

use crate::contract::context::SkillSummary;
use crate::runtime::skills::frontmatter::Frontmatter;
use vstd::prelude::*;

verus! {

/// Validates one parsed frontmatter and returns the catalog entry.
pub fn validate(frontmatter: &Frontmatter, dir_name: &str) -> (r: Result<SkillSummary, String>)
    ensures
        match r {
            Ok(summary) => frontmatter::validated(frontmatter@, dir_name@) == Ok::<
                (Seq<char>, Seq<char>),
                Seq<char>,
            >((summary@.name, summary@.description)),
            Err(message) => frontmatter::validated(frontmatter@, dir_name@) == Err::<
                (Seq<char>, Seq<char>),
                Seq<char>,
            >(message@),
        },
{
    match frontmatter::validate(frontmatter, dir_name) {
        Ok((name, description)) => Ok(SkillSummary { name, description }),
        Err(message) => Err(message),
    }
}

} // verus!
