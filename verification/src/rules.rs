use vstd::prelude::*;

use crate::error::TileError;
use crate::yaml::{
    spec_doc_as_bool, spec_doc_as_i64, spec_doc_get, spec_yaml_doc, spec_yaml_parses, yaml_parse,
    YamlDoc, YamlNodeRef,
};

verus! {

/// The largest accepted tile pixel size. Destination rectangles are computed
/// in 64-bit pixel coordinates as `origin * size * 4 + size * 2` with origins
/// up to the 32-bit cell range, so the size must stay below 2^29 for that
/// product to be representable.
pub const MAX_TILE_SIZE: i64 = 536870912;

/// One auto-tiling rule: a 4-element neighbor pattern, in the order
/// upper-left, upper-right, lower-right, lower-left, mapped to the square
/// `size` x `size` sprite region of the atlas whose top-left pixel is
/// `(sprite_x, sprite_y)`.
#[derive(Clone, Debug, PartialEq, Eq)]
pub struct TileRule {
    pub neighbors: [bool; 4],
    pub sprite_x: i64,
    pub sprite_y: i64,
    pub size: i64,
}

/// A rule's tile size is in the accepted range.
pub open spec fn spec_rule_wf(r: TileRule) -> bool {
    0 <= r.size <= MAX_TILE_SIZE
}

/// Whether a rule's stored pattern equals the given neighbor pattern.
pub open spec fn spec_rule_matches(r: TileRule, n0: bool, n1: bool, n2: bool, n3: bool) -> bool {
    &&& r.neighbors[0] == n0
    &&& r.neighbors[1] == n1
    &&& r.neighbors[2] == n2
    &&& r.neighbors[3] == n3
}

/// The index of the first rule at or after `i` whose pattern equals the given
/// one, or the table length if no such rule exists.
pub open spec fn rule_index_from(
    rules: Seq<TileRule>,
    i: int,
    n0: bool,
    n1: bool,
    n2: bool,
    n3: bool,
) -> int
    decreases rules.len() - i,
{
    if i < 0 || i >= rules.len() {
        rules.len() as int
    } else if spec_rule_matches(rules[i], n0, n1, n2, n3) {
        i
    } else {
        rule_index_from(rules, i + 1, n0, n1, n2, n3)
    }
}

/// The index of the first rule matching the given pattern, or the table
/// length if none matches: first match wins when patterns are duplicated.
pub open spec fn spec_rule_index(rules: Seq<TileRule>, n0: bool, n1: bool, n2: bool, n3: bool) -> int {
    rule_index_from(rules, 0, n0, n1, n2, n3)
}

/// Whether resolution of the given pattern succeeds.
pub open spec fn spec_has_rule(rules: Seq<TileRule>, n0: bool, n1: bool, n2: bool, n3: bool) -> bool {
    spec_rule_index(rules, n0, n1, n2, n3) < rules.len()
}

/// Whether some rule of the table stores the given pattern.
pub open spec fn spec_has_matching_rule(
    rules: Seq<TileRule>,
    n0: bool,
    n1: bool,
    n2: bool,
    n3: bool,
) -> bool {
    exists|i: int| 0 <= i < rules.len() && spec_rule_matches(rules[i], n0, n1, n2, n3)
}

/// Whether the table stores a rule for every one of the sixteen possible
/// boolean neighbor patterns.
pub open spec fn spec_covers_all_patterns(rules: Seq<TileRule>) -> bool {
    forall|n0: bool, n1: bool, n2: bool, n3: bool| #[trigger] spec_has_matching_rule(
        rules,
        n0,
        n1,
        n2,
        n3,
    )
}

/// `rule_index_from` finds the first match: its result lies between `i` and
/// the table length, matches when it is a real index, is preceded by no match,
/// and is a real index whenever any rule at or after `i` matches.
pub proof fn lemma_rule_index_from(rules: Seq<TileRule>, i: int, n0: bool, n1: bool, n2: bool, n3: bool)
    requires
        0 <= i <= rules.len(),
    ensures
        ({
            let r = rule_index_from(rules, i, n0, n1, n2, n3);
            &&& i <= r <= rules.len()
            &&& r < rules.len() ==> spec_rule_matches(rules[r], n0, n1, n2, n3)
            &&& forall|j: int|
                i <= j < r ==> !spec_rule_matches(#[trigger] rules[j], n0, n1, n2, n3)
            &&& (exists|j: int|
                i <= j < rules.len() && spec_rule_matches(#[trigger] rules[j], n0, n1, n2, n3))
                ==> r < rules.len()
        }),
    decreases rules.len() - i,
{
    if i < rules.len() && !spec_rule_matches(rules[i], n0, n1, n2, n3) {
        lemma_rule_index_from(rules, i + 1, n0, n1, n2, n3);
    }
}

/// Coverage completeness: a table that stores a rule for every neighbor
/// pattern resolves every pattern without error.
pub proof fn lemma_complete_table_resolves(
    rules: Seq<TileRule>,
    n0: bool,
    n1: bool,
    n2: bool,
    n3: bool,
)
    requires
        spec_covers_all_patterns(rules),
    ensures
        spec_has_rule(rules, n0, n1, n2, n3),
{
    assert(spec_has_matching_rule(rules, n0, n1, n2, n3));
    lemma_rule_index_from(rules, 0, n0, n1, n2, n3);
}

/// The neighbor flag a description element denotes: a YAML boolean, or the
/// integer 0 or 1; `None` for anything else.
pub open spec fn spec_neighbor_flag(d: YamlDoc) -> Option<bool> {
    match spec_doc_as_bool(d) {
        Some(b) => Some(b),
        None => match spec_doc_as_i64(d) {
            Some(v) => if v == 0 {
                Some(false)
            } else if v == 1 {
                Some(true)
            } else {
                None
            },
            None => None,
        },
    }
}

/// The first defect of one rule entry, or `None` when the entry is well
/// formed: a missing, non-sequence or non-4-element `neighbors` field first,
/// then each neighbor element in order, then the `sprite` mapping, then its
/// `x` and `y` coordinates.
pub open spec fn spec_rule_err(d: YamlDoc) -> Option<TileError> {
    if !(spec_doc_get(d, "neighbors"@) matches Some(nb) && nb is List && nb->List_0.len() == 4) {
        Some(TileError::InvalidNeighbors)
    } else {
        let ns = spec_doc_get(d, "neighbors"@)->Some_0->List_0;
        if spec_neighbor_flag(ns[0]) is None || spec_neighbor_flag(ns[1]) is None
            || spec_neighbor_flag(ns[2]) is None || spec_neighbor_flag(ns[3]) is None {
            Some(TileError::InvalidNeighborValue)
        } else if !(spec_doc_get(d, "sprite"@) matches Some(sp) && sp is Mapping) {
            Some(TileError::InvalidSprite)
        } else {
            let sp = spec_doc_get(d, "sprite"@)->Some_0;
            if !(spec_doc_get(sp, "x"@) matches Some(x) && spec_doc_as_i64(x) is Some) {
                Some(TileError::InvalidSpriteX)
            } else if !(spec_doc_get(sp, "y"@) matches Some(y) && spec_doc_as_i64(y) is Some) {
                Some(TileError::InvalidSpriteY)
            } else {
                None
            }
        }
    }
}

/// Whether a well-formed entry's fields all equal the rule's: the four
/// neighbor flags in order, the sprite region's coordinates, and the shared
/// tile size.
pub open spec fn spec_rule_denotes(d: YamlDoc, size: i64, r: TileRule) -> bool {
    let ns = spec_doc_get(d, "neighbors"@)->Some_0->List_0;
    let sp = spec_doc_get(d, "sprite"@)->Some_0;
    &&& r.neighbors[0] == spec_neighbor_flag(ns[0])->Some_0
    &&& r.neighbors[1] == spec_neighbor_flag(ns[1])->Some_0
    &&& r.neighbors[2] == spec_neighbor_flag(ns[2])->Some_0
    &&& r.neighbors[3] == spec_neighbor_flag(ns[3])->Some_0
    &&& r.sprite_x == spec_doc_as_i64(spec_doc_get(sp, "x"@)->Some_0)->Some_0
    &&& r.sprite_y == spec_doc_as_i64(spec_doc_get(sp, "y"@)->Some_0)->Some_0
    &&& r.size == size
}

/// The description's `size` field, when present and integer.
pub open spec fn spec_desc_size(doc: YamlDoc) -> Option<i64> {
    match spec_doc_get(doc, "size"@) {
        Some(v) => spec_doc_as_i64(v),
        None => None,
    }
}

/// Whether the description's `size` is present, integer and in range.
pub open spec fn spec_desc_size_ok(doc: YamlDoc) -> bool {
    spec_desc_size(doc) matches Some(s) && 0 <= s <= MAX_TILE_SIZE
}

/// The description's rule entries: the `rules` field, when it is a sequence.
pub open spec fn spec_desc_entries(doc: YamlDoc) -> Option<Seq<YamlDoc>> {
    match spec_doc_get(doc, "rules"@) {
        Some(v) => if v is List {
            Some(v->List_0)
        } else {
            None
        },
        None => None,
    }
}

/// The first defect among the entries at or after `i`, or `None`.
pub open spec fn spec_entries_err_from(es: Seq<YamlDoc>, i: int) -> Option<TileError>
    decreases es.len() - i,
{
    if i < 0 || i >= es.len() {
        None
    } else if spec_rule_err(es[i]) is Some {
        spec_rule_err(es[i])
    } else {
        spec_entries_err_from(es, i + 1)
    }
}

/// The first defect among a description's entries, or `None` when every
/// entry is well formed.
pub open spec fn spec_entries_err(es: Seq<YamlDoc>) -> Option<TileError> {
    spec_entries_err_from(es, 0)
}

/// Whether a parsed description is well formed: a valid `size` and a `rules`
/// sequence of well-formed entries.
pub open spec fn spec_desc_ok(doc: YamlDoc) -> bool {
    &&& spec_desc_size_ok(doc)
    &&& spec_desc_entries(doc) is Some
    &&& spec_entries_err(spec_desc_entries(doc)->Some_0) is None
}

/// An ordered rule table together with the sprite atlas reference and the
/// YAML source it is loaded from. The table is built once by `load` and is
/// meant to stay immutable afterwards; pattern lookup is by exact match,
/// first match wins.
#[derive(Debug)]
pub struct TileRules {
    pub rules: Vec<TileRule>,
    pub sprite_atlas: Option<String>,
    pub yaml_file: Option<Vec<u8>>,
}

impl TileRules {
    /// Every stored rule has a representable tile size.
    pub open spec fn wf(self) -> bool {
        forall|i: int| 0 <= i < self.rules@.len() ==> spec_rule_wf(#[trigger] self.rules@[i])
    }

    /// The table is ready for use: loaded with at least one rule, with both a
    /// YAML source and a sprite atlas reference provided.
    pub open spec fn spec_loaded(self) -> bool {
        &&& self.rules@.len() > 0
        &&& self.yaml_file is Some
        &&& self.sprite_atlas is Some
    }

    /// The error reported for a table that is not ready for use.
    pub open spec fn spec_load_state_err(self) -> TileError {
        if self.rules@.len() == 0 {
            TileError::NotLoaded
        } else if self.yaml_file is None {
            TileError::MissingYamlFile
        } else {
            TileError::MissingSpriteAtlas
        }
    }

    /// An empty, unloaded table.
    pub fn new() -> (r: TileRules)
        ensures
            r.rules@.len() == 0,
            r.sprite_atlas is None,
            r.yaml_file is None,
    {
        TileRules { rules: Vec::new(), sprite_atlas: None, yaml_file: None }
    }

    /// Records the sprite atlas reference the rules will draw from.
    pub fn with_sprite_atlas(self, sprite_atlas: &str) -> (r: TileRules)
        ensures
            r.sprite_atlas matches Some(a) && a@ == sprite_atlas@,
            r.rules == self.rules,
            r.yaml_file == self.yaml_file,
    {
        TileRules {
            rules: self.rules,
            sprite_atlas: Some(sprite_atlas.to_owned()),
            yaml_file: self.yaml_file,
        }
    }

    /// Records the bytes of the YAML rule description.
    pub fn with_bytes_yaml_file(self, yaml_file: &[u8]) -> (r: TileRules)
        ensures
            r.yaml_file matches Some(b) && b@ == yaml_file@,
            r.rules == self.rules,
            r.sprite_atlas == self.sprite_atlas,
    {
        TileRules {
            rules: self.rules,
            sprite_atlas: self.sprite_atlas,
            yaml_file: Some(vstd::slice::slice_to_vec(yaml_file)),
        }
    }

    /// Checks that the table is ready for use, reporting why it is not.
    pub fn check_loaded(&self) -> (r: Result<(), TileError>)
        ensures
            r is Ok <==> self.spec_loaded(),
            r is Err ==> r->Err_0 == self.spec_load_state_err(),
    {
        if self.rules.len() == 0 {
            return Err(TileError::NotLoaded);
        }
        if self.yaml_file.is_none() {
            return Err(TileError::MissingYamlFile);
        }
        if self.sprite_atlas.is_none() {
            return Err(TileError::MissingSpriteAtlas);
        }
        Ok(())
    }

    /// Reads one `neighbors` element: a YAML boolean, or the integer 0 or 1.
    fn parse_neighbor(e: &YamlNodeRef<'_>) -> (r: Result<bool, TileError>)
        ensures
            r is Ok <==> spec_neighbor_flag(e.model()) is Some,
            r matches Ok(b) ==> Some(b) == spec_neighbor_flag(e.model()),
            r is Err ==> r->Err_0 == TileError::InvalidNeighborValue,
    {
        match e.as_bool() {
            Some(b) => Ok(b),
            None => match e.as_i64() {
                Some(v) => {
                    if v == 0 {
                        Ok(false)
                    } else if v == 1 {
                        Ok(true)
                    } else {
                        Err(TileError::InvalidNeighborValue)
                    }
                },
                None => Err(TileError::InvalidNeighborValue),
            },
        }
    }

    /// Reads one rule of the description: a 4-element `neighbors` pattern and
    /// a `sprite` mapping with the region's top-left pixel coordinates. The
    /// result is exactly what the entry's model denotes, and each malformed
    /// field fails with the first defect `spec_rule_err` names.
    fn parse_rule(rule_v: &YamlNodeRef<'_>, size: i64) -> (r: Result<TileRule, TileError>)
        requires
            0 <= size <= MAX_TILE_SIZE,
        ensures
            r is Ok <==> spec_rule_err(rule_v.model()) is None,
            r matches Ok(t) ==> spec_rule_denotes(rule_v.model(), size, t) && spec_rule_wf(t),
            r matches Err(e) ==> Some(e) == spec_rule_err(rule_v.model()),
    {
        let neigh_list = match rule_v.get("neighbors") {
            None => {
                return Err(TileError::InvalidNeighbors);
            },
            Some(v) => match v.as_list() {
                None => {
                    return Err(TileError::InvalidNeighbors);
                },
                Some(l) => l,
            },
        };
        if neigh_list.len() != 4 {
            return Err(TileError::InvalidNeighbors);
        }
        let n0 = match Self::parse_neighbor(&neigh_list.index(0)) {
            Err(e) => {
                return Err(e);
            },
            Ok(b) => b,
        };
        let n1 = match Self::parse_neighbor(&neigh_list.index(1)) {
            Err(e) => {
                return Err(e);
            },
            Ok(b) => b,
        };
        let n2 = match Self::parse_neighbor(&neigh_list.index(2)) {
            Err(e) => {
                return Err(e);
            },
            Ok(b) => b,
        };
        let n3 = match Self::parse_neighbor(&neigh_list.index(3)) {
            Err(e) => {
                return Err(e);
            },
            Ok(b) => b,
        };
        let sprite_v = match rule_v.get("sprite") {
            None => {
                return Err(TileError::InvalidSprite);
            },
            Some(v) => v,
        };
        if !sprite_v.is_mapping() {
            return Err(TileError::InvalidSprite);
        }
        let sprite_x = match sprite_v.get("x") {
            None => {
                return Err(TileError::InvalidSpriteX);
            },
            Some(v) => match v.as_i64() {
                None => {
                    return Err(TileError::InvalidSpriteX);
                },
                Some(px) => px,
            },
        };
        let sprite_y = match sprite_v.get("y") {
            None => {
                return Err(TileError::InvalidSpriteY);
            },
            Some(v) => match v.as_i64() {
                None => {
                    return Err(TileError::InvalidSpriteY);
                },
                Some(py) => py,
            },
        };
        Ok(TileRule { neighbors: [n0, n1, n2, n3], sprite_x, sprite_y, size })
    }

    /// Builds the rule table from the recorded YAML description: a `size`
    /// field giving the uniform tile pixel size and an ordered `rules`
    /// sequence, each rule pairing a neighbor pattern with a sprite region.
    ///
    /// Succeeds exactly on a well-formed description, and the loaded rules
    /// mirror the description's entries in order. Unparseable bytes fail
    /// with `YamlParse`, and each malformed field of a parsed description
    /// fails with the error naming the first offending field.
    pub fn load(self) -> (r: Result<TileRules, TileError>)
        ensures
            r == Err::<TileRules, TileError>(TileError::MissingSpriteAtlas) <==> self.sprite_atlas
                is None,
            self.sprite_atlas is Some ==> (r == Err::<TileRules, TileError>(
                TileError::MissingYamlFile,
            ) <==> self.yaml_file is None),
            r == Err::<TileRules, TileError>(TileError::YamlParse) <==> (self.sprite_atlas is Some
                && (self.yaml_file matches Some(b) && !spec_yaml_parses(b@))),
            r is Ok <==> (self.sprite_atlas is Some && (self.yaml_file matches Some(b)
                && spec_yaml_parses(b@) && spec_desc_ok(spec_yaml_doc(b@)->Some_0))),
            self.yaml_file matches Some(b) ==> (self.sprite_atlas is Some && spec_yaml_parses(b@)
                ==> ({
                let doc = spec_yaml_doc(b@)->Some_0;
                &&& (r == Err::<TileRules, TileError>(TileError::InvalidSize)
                    <==> !spec_desc_size_ok(doc))
                &&& spec_desc_size_ok(doc) ==> (r == Err::<TileRules, TileError>(
                    TileError::InvalidRules,
                ) <==> spec_desc_entries(doc) is None)
                &&& spec_desc_size_ok(doc) ==> (spec_desc_entries(doc) matches Some(es) ==> (
                spec_entries_err(es) matches Some(first_err) ==> r == Err::<TileRules, TileError>(
                    first_err,
                )))
            })),
            r is Ok ==> (self.yaml_file matches Some(b) && ({
                let doc = spec_yaml_doc(b@)->Some_0;
                let es = spec_desc_entries(doc)->Some_0;
                let t = r->Ok_0;
                &&& t.rules@.len() == es.len()
                &&& forall|i: int|
                    0 <= i < es.len() ==> spec_rule_denotes(
                        es[i],
                        spec_desc_size(doc)->Some_0,
                        #[trigger] t.rules@[i],
                    )
                &&& t.wf()
                &&& t.sprite_atlas == self.sprite_atlas
                &&& t.yaml_file == self.yaml_file
                &&& forall|i: int, j: int|
                    0 <= i < t.rules@.len() && 0 <= j < t.rules@.len() ==> (
                    #[trigger] t.rules@[i]).size == (#[trigger] t.rules@[j]).size
            })),
    {
        if self.sprite_atlas.is_none() {
            return Err(TileError::MissingSpriteAtlas);
        }
        let yaml_bytes = match &self.yaml_file {
            None => {
                return Err(TileError::MissingYamlFile);
            },
            Some(b) => b,
        };
        let parsed = match yaml_parse(yaml_bytes.as_slice()) {
            Err(_) => {
                return Err(TileError::YamlParse);
            },
            Ok(p) => p,
        };
        let root = parsed.root();
        let size = match root.get("size") {
            None => {
                return Err(TileError::InvalidSize);
            },
            Some(v) => match v.as_i64() {
                None => {
                    return Err(TileError::InvalidSize);
                },
                Some(s) => s,
            },
        };
        if size < 0 || size > MAX_TILE_SIZE {
            return Err(TileError::InvalidSize);
        }
        let entries = match root.get("rules") {
            None => {
                return Err(TileError::InvalidRules);
            },
            Some(v) => match v.as_list() {
                None => {
                    return Err(TileError::InvalidRules);
                },
                Some(l) => l,
            },
        };
        let mut rules: Vec<TileRule> = Vec::new();
        let n = entries.len();
        let mut i: usize = 0;
        while i < n
            invariant
                i <= n,
                n == entries.model().len(),
                0 <= size <= MAX_TILE_SIZE,
                self.sprite_atlas is Some,
                self.yaml_file matches Some(b) && spec_yaml_parses(b@) && ({
                    let doc = spec_yaml_doc(b@)->Some_0;
                    &&& spec_desc_size_ok(doc)
                    &&& spec_desc_size(doc) == Some(size)
                    &&& spec_desc_entries(doc) == Some(entries.model())
                }),
                spec_entries_err_from(entries.model(), 0) == spec_entries_err_from(
                    entries.model(),
                    i as int,
                ),
                rules@.len() == i,
                forall|j: int|
                    0 <= j < i ==> spec_rule_err(#[trigger] entries.model()[j]) is None,
                forall|j: int|
                    0 <= j < i ==> spec_rule_denotes(
                        entries.model()[j],
                        size,
                        #[trigger] rules@[j],
                    ),
                forall|j: int| 0 <= j < rules@.len() ==> spec_rule_wf(#[trigger] rules@[j]),
                forall|j: int| 0 <= j < rules@.len() ==> (#[trigger] rules@[j]).size == size,
            decreases n - i,
        {
            let entry = entries.index(i);
            let rule = match Self::parse_rule(&entry, size) {
                Err(e) => {
                    return Err(e);
                },
                Ok(t) => t,
            };
            rules.push(rule);
            i = i + 1;
        }
        Ok(TileRules { rules, sprite_atlas: self.sprite_atlas, yaml_file: self.yaml_file })
    }

    /// Resolves a neighbor pattern to the first rule storing exactly that
    /// pattern; fails with `RuleNotFound` when no rule matches, and with the
    /// load-state error when the table is not ready for use.
    pub fn tile_by_rules(&self, neighbors: [bool; 4]) -> (r: Result<&TileRule, TileError>)
        ensures
            r is Ok <==> self.spec_loaded() && spec_has_rule(
                self.rules@,
                neighbors[0],
                neighbors[1],
                neighbors[2],
                neighbors[3],
            ),
            r is Ok ==> *r->Ok_0 == self.rules@[spec_rule_index(
                self.rules@,
                neighbors[0],
                neighbors[1],
                neighbors[2],
                neighbors[3],
            )],
            !self.spec_loaded() ==> r == Err::<&TileRule, TileError>(self.spec_load_state_err()),
            self.spec_loaded() && !spec_has_rule(
                self.rules@,
                neighbors[0],
                neighbors[1],
                neighbors[2],
                neighbors[3],
            ) ==> r == Err::<&TileRule, TileError>(TileError::RuleNotFound),
    {
        if let Err(e) = self.check_loaded() {
            return Err(e);
        }
        let n = self.rules.len();
        let mut i: usize = 0;
        while i < n
            invariant
                i <= n,
                n == self.rules@.len(),
                self.spec_loaded(),
                rule_index_from(self.rules@, 0, neighbors[0], neighbors[1], neighbors[2], neighbors[3])
                    == rule_index_from(
                    self.rules@,
                    i as int,
                    neighbors[0],
                    neighbors[1],
                    neighbors[2],
                    neighbors[3],
                ),
            decreases n - i,
        {
            let rule = &self.rules[i];
            if rule.neighbors[0] == neighbors[0] && rule.neighbors[1] == neighbors[1]
                && rule.neighbors[2] == neighbors[2] && rule.neighbors[3] == neighbors[3] {
                return Ok(rule);
            }
            i = i + 1;
        }
        Err(TileError::RuleNotFound)
    }
}

} // verus!
