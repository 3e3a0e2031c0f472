use vstd::prelude::*;

verus! {

/// The reasons an operation of the tilemap engine can fail.
///
/// Loading a rule table can fail on a missing atlas or YAML source, on
/// unparseable YAML, or on a malformed field of the description; querying an
/// unloaded table fails with `NotLoaded`; resolving a neighbor pattern with no
/// matching rule fails with `RuleNotFound`; chunk construction fails on an
/// unrepresentable origin or size, or on row data inconsistent with the
/// declared dimensions.
#[derive(Clone, Copy, Debug, PartialEq, Eq, Structural)]
pub enum TileError {
    /// No sprite atlas reference was provided before loading.
    MissingSpriteAtlas,
    /// No YAML rule description was provided before loading.
    MissingYamlFile,
    /// The YAML source could not be parsed.
    YamlParse,
    /// The `size` field is missing, not an integer, or out of range.
    InvalidSize,
    /// The `rules` field is missing or not a sequence.
    InvalidRules,
    /// A rule's `neighbors` field is missing, not a sequence, or not of length four.
    InvalidNeighbors,
    /// A `neighbors` element is neither a boolean nor the integer 0 or 1.
    InvalidNeighborValue,
    /// A rule's `sprite` field is missing or not a mapping.
    InvalidSprite,
    /// A sprite's `x` field is missing or not an integer.
    InvalidSpriteX,
    /// A sprite's `y` field is missing or not an integer.
    InvalidSpriteY,
    /// The rule table was used before being loaded.
    NotLoaded,
    /// A sampled neighbor pattern has no matching rule in the table.
    RuleNotFound,
    /// A chunk origin or size is outside the representable range.
    InvalidChunkSize,
    /// Chunk row data is inconsistent with the declared dimensions.
    InvalidChunkData,
}

} // verus!
