//! The examples that a manifest declares.

use crate::error::ConfigError;
use crate::text::{lemma_present_push, optional_texts, present, texts};
use vstd::prelude::*;

verus! {

/// The error type of the manifest parser.
#[verifier::external_type_specification]
#[verifier::external_body]
pub struct ExManifestError(cargo_toml::Error);

/// What `cargo_toml::Manifest::from_str` gives for the text `manifest`: the
/// `name` field of each entry of the parsed manifest's `example` list, in
/// the order of that list; `None` where it returns an error.
pub uninterp spec fn declared_in(manifest: Seq<char>) -> Option<Seq<Option<Seq<char>>>>;

/// Calls `cargo_toml::Manifest::from_str` and hands out the `name` field of
/// each entry of the manifest's `example` list. Trusted: whether the text
/// parses, and what the list then holds, is a matter of the text alone.
#[verifier::external_body]
fn parse_example_names(manifest: &str) -> (r: Result<Vec<Option<String>>, cargo_toml::Error>)
    ensures
        match r {
            Ok(names) => declared_in(manifest@) == Some(optional_texts(names@)),
            Err(_) => declared_in(manifest@) is None,
        },
{
    let parsed = cargo_toml::Manifest::from_str(manifest)?;
    Ok(parsed.example.into_iter().map(|product| product.name).collect())
}

/// Formats the parser's error through its `Display`. Trusted, and nothing is
/// claimed of the text.
#[verifier::external_body]
fn describe(error: &cargo_toml::Error) -> String {
    error.to_string()
}

/// The names that are there, in their order: a declaration without a name
/// yields no example.
pub fn named_declarations(names: Vec<Option<String>>) -> (declared: Vec<String>)
    ensures
        texts(declared@) == present(optional_texts(names@)),
{
    let mut declared: Vec<String> = Vec::new();
    let mut i: usize = 0;
    while i < names.len()
        invariant
            i <= names.len(),
            texts(declared@) == present(optional_texts(names@).subrange(0, i as int)),
        decreases names.len() - i,
    {
        let ghost before = texts(declared@);
        let ghost seen = optional_texts(names@).subrange(0, i as int);
        proof {
            lemma_present_push(seen, optional_texts(names@)[i as int]);
            assert(optional_texts(names@).subrange(0, i + 1) =~= seen.push(
                optional_texts(names@)[i as int],
            ));
        }
        match &names[i] {
            Some(name) => {
                declared.push(name.clone());
                assert(texts(declared@) =~= before.push(name@));
            },
            None => {},
        }
        i += 1;
    }
    assert(optional_texts(names@).subrange(0, i as int) =~= optional_texts(names@));
    declared
}

/// The names of the examples that the manifest text declares.
///
/// Fails exactly where the text does not parse as a manifest.
pub fn declared_names(manifest: &str) -> (r: Result<Vec<String>, ConfigError>)
    ensures
        match r {
            Ok(declared) => declared_in(manifest@) is Some && texts(declared@) == present(
                declared_in(manifest@)->0,
            ),
            Err(ConfigError::InvalidManifest(_)) => declared_in(manifest@) is None,
            Err(_) => false,
        },
{
    match parse_example_names(manifest) {
        Ok(names) => Ok(named_declarations(names)),
        Err(error) => Err(ConfigError::InvalidManifest(describe(&error))),
    }
}

} // verus!
