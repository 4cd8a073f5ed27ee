//! The candidate classifier: a rule table that tells plausible
//! environment-variable names from incidental string constants.

use crate::text::{
    byte_is_letter, byte_is_lower, byte_is_name, contains, equals, is_lower, is_name_byte,
    is_underscore, lemma_letters_bounded, letter_count, letters_in_first, occurs_in, same_text,
};
use vstd::prelude::*;
use vstd::utf8::encode_utf8;

verus! {

/// How a noise token is held against a name.
#[derive(Clone, Copy, Debug, PartialEq, Eq, Structural)]
pub enum NoiseMatch {
    /// The name is the token.
    Whole,
    /// The name contains the token.
    Part,
    /// The name contains the token and has no underscore.
    PartWithoutUnderscore,
}

/// One entry of the denylist.
#[derive(Debug, Clone)]
pub struct NoiseRule {
    /// The token.
    pub token: String,
    /// How it is held against a name.
    pub how: NoiseMatch,
    /// Whether ASCII case is ignored.
    pub any_case: bool,
}

/// The rule table of the classifier.
#[derive(Debug, Clone)]
pub struct ClassifierPolicy {
    /// The shortest name accepted, in bytes.
    pub min_len: usize,
    /// The longest name accepted, in bytes.
    pub max_len: usize,
    /// The least number of ASCII letters in a name.
    pub min_letters: usize,
    /// The least share of ASCII letters in a name, in percent.
    pub min_letter_percent: u8,
    /// The denylist.
    pub noise: Vec<NoiseRule>,
    /// The fragments of which one marks a name with lower-case letters as a
    /// candidate; they are matched without regard to ASCII case.
    pub keywords: Vec<String>,
}

/// A denylist entry over bytes.
pub struct Noise {
    pub token: Seq<u8>,
    pub how: NoiseMatch,
    pub any_case: bool,
}

/// A rule table over bytes.
pub struct RuleTable {
    pub min_len: nat,
    pub max_len: nat,
    pub min_letters: nat,
    pub min_letter_percent: nat,
    pub noise: Seq<Noise>,
    pub keywords: Seq<Seq<u8>>,
}

impl View for NoiseRule {
    type V = Noise;

    open spec fn view(&self) -> Noise {
        Noise { token: encode_utf8(self.token@), how: self.how, any_case: self.any_case }
    }
}

impl View for ClassifierPolicy {
    type V = RuleTable;

    open spec fn view(&self) -> RuleTable {
        RuleTable {
            min_len: self.min_len as nat,
            max_len: self.max_len as nat,
            min_letters: self.min_letters as nat,
            min_letter_percent: self.min_letter_percent as nat,
            noise: Seq::new(self.noise@.len(), |i: int| self.noise@[i]@),
            keywords: Seq::new(self.keywords@.len(), |i: int| encode_utf8(self.keywords@[i]@)),
        }
    }
}

/// Whether the name holds an underscore.
pub open spec fn has_underscore(name: Seq<u8>) -> bool {
    exists|i: int| 0 <= i < name.len() && is_underscore(#[trigger] name[i])
}

/// Whether the name holds an ASCII lower-case letter.
pub open spec fn has_lower(name: Seq<u8>) -> bool {
    exists|i: int| 0 <= i < name.len() && is_lower(#[trigger] name[i])
}

/// Whether every byte of the name is an ASCII letter, a digit or the underscore.
pub open spec fn is_identifier(name: Seq<u8>) -> bool {
    forall|i: int| 0 <= i < name.len() ==> is_name_byte(#[trigger] name[i])
}

/// Whether the name begins or ends with an underscore.
pub open spec fn has_edge_underscore(name: Seq<u8>) -> bool {
    name.len() > 0 && (is_underscore(name[0]) || is_underscore(name[name.len() - 1]))
}

/// Whether the name has enough letters, by count and by share.
pub open spec fn has_enough_letters(table: RuleTable, name: Seq<u8>) -> bool {
    &&& letter_count(name) >= table.min_letters
    &&& letter_count(name) * 100 >= name.len() * table.min_letter_percent
}

/// Whether a denylist entry rejects the name.
pub open spec fn noise_rejects(noise: Noise, name: Seq<u8>) -> bool {
    match noise.how {
        NoiseMatch::Whole => same_text(name, noise.token, noise.any_case),
        NoiseMatch::Part => occurs_in(name, noise.token, noise.any_case),
        NoiseMatch::PartWithoutUnderscore => !has_underscore(name) && occurs_in(
            name,
            noise.token,
            noise.any_case,
        ),
    }
}

/// Whether some entry of the denylist rejects the name.
pub open spec fn is_noise(table: RuleTable, name: Seq<u8>) -> bool {
    exists|i: int| 0 <= i < table.noise.len() && noise_rejects(#[trigger] table.noise[i], name)
}

/// Whether the name holds one of the keyword fragments, whatever its case.
pub open spec fn has_keyword(table: RuleTable, name: Seq<u8>) -> bool {
    exists|i: int| 0 <= i < table.keywords.len() && occurs_in(name, #[trigger] table.keywords[i], true)
}

/// The classifier's decision. A name is rejected if its length is out of
/// bounds, if it holds a byte that is no ASCII letter, digit or underscore,
/// if it begins or ends with an underscore, if it has too few letters, or if
/// the denylist rejects it. Of what is left, a name with an underscore is
/// accepted if it has no lower-case letter, or if it holds a keyword fragment.
pub open spec fn accepts(table: RuleTable, name: Seq<u8>) -> bool {
    &&& table.min_len <= name.len() <= table.max_len
    &&& is_identifier(name)
    &&& !has_edge_underscore(name)
    &&& has_enough_letters(table, name)
    &&& !is_noise(table, name)
    &&& has_underscore(name)
    &&& (!has_lower(name) || has_keyword(table, name))
}

/// A name shorter than the table's minimum, or longer than its maximum, is rejected.
pub proof fn lemma_length_out_of_bounds_rejected(table: RuleTable, name: Seq<u8>)
    requires
        name.len() < table.min_len || name.len() > table.max_len,
    ensures
        !accepts(table, name),
{
}

/// A name that begins or ends with an underscore is rejected, whatever the table.
pub proof fn lemma_edge_underscore_rejected(table: RuleTable, name: Seq<u8>)
    requires
        name.len() > 0,
        is_underscore(name.first()) || is_underscore(name.last()),
    ensures
        !accepts(table, name),
{
}

/// A name that a denylist entry rejects is rejected.
pub proof fn lemma_noise_rejected(table: RuleTable, name: Seq<u8>, entry: int)
    requires
        0 <= entry < table.noise.len(),
        noise_rejects(table.noise[entry], name),
    ensures
        !accepts(table, name),
{
}

/// A denylist entry that rejects the name that is `token`.
pub open spec fn whole(token: Seq<char>) -> Noise {
    Noise { token: encode_utf8(token), how: NoiseMatch::Whole, any_case: false }
}

/// A denylist entry that rejects a name that contains `token`.
pub open spec fn part(token: Seq<char>) -> Noise {
    Noise { token: encode_utf8(token), how: NoiseMatch::Part, any_case: false }
}

/// A denylist entry that rejects a name without underscore that contains `token`.
pub open spec fn bare_part(token: Seq<char>) -> Noise {
    Noise { token: encode_utf8(token), how: NoiseMatch::PartWithoutUnderscore, any_case: false }
}

/// The denylist of the standard table: protocol names, literals and short
/// words as whole names, markers of the toolchain and its runtime as parts.
pub open spec fn standard_noise() -> Seq<Noise> {
    seq![
        whole("HTTP"@),
        whole("HTTPS"@),
        whole("JSON"@),
        whole("UTF8"@),
        whole("WASM"@),
        whole("COMPONENT"@),
        whole("LOCALHOST"@),
        whole("MAIN"@),
        whole("FALSE"@),
        whole("TRUE"@),
        whole("FILE"@),
        part("::"@),
        bare_part("Error"@),
        part("RUST_"@),
        part("BACKTRACE"@),
    ]
}

/// The keyword fragments of the standard table.
pub open spec fn standard_keywords() -> Seq<Seq<u8>> {
    seq![
        encode_utf8("_KEY"@),
        encode_utf8("_TOKEN"@),
        encode_utf8("_SECRET"@),
        encode_utf8("_PASSWORD"@),
        encode_utf8("_URL"@),
        encode_utf8("_DB"@),
        encode_utf8("API_KEY"@),
        encode_utf8("DATABASE_"@),
        encode_utf8("HOST_"@),
        encode_utf8("_PORT"@),
        encode_utf8("_API_"@),
        encode_utf8("BETTY_"@),
        encode_utf8("JWT"@),
    ]
}

/// The standard rule table: names of 4 to 100 bytes with at least 4 letters,
/// letters making up at least half of the name.
pub open spec fn standard_table() -> RuleTable {
    RuleTable {
        min_len: 4,
        max_len: 100,
        min_letters: 4,
        min_letter_percent: 50,
        noise: standard_noise(),
        keywords: standard_keywords(),
    }
}

/// Whether the standard table accepts the name.
pub open spec fn is_env_var_name(name: Seq<u8>) -> bool {
    accepts(standard_table(), name)
}

/// What one pass over a name finds.
struct Shape {
    identifier: bool,
    letters: usize,
    underscore: bool,
    lower: bool,
}

/// Walks the name once: its character set, its letters, and whether it
/// holds an underscore or a lower-case letter.
fn shape_of(name: &[u8]) -> (shape: Shape)
    ensures
        shape.identifier == is_identifier(name@),
        shape.letters == letter_count(name@),
        shape.underscore == has_underscore(name@),
        shape.lower == has_lower(name@),
{
    let mut shape = Shape { identifier: true, letters: 0, underscore: false, lower: false };
    let mut i: usize = 0;
    while i < name.len()
        invariant
            i <= name.len(),
            shape.letters == letters_in_first(name@, i as int),
            shape.letters <= i,
            shape.identifier == (forall|k: int| 0 <= k < i ==> is_name_byte(#[trigger] name@[k])),
            shape.underscore == (exists|k: int| 0 <= k < i && is_underscore(#[trigger] name@[k])),
            shape.lower == (exists|k: int| 0 <= k < i && is_lower(#[trigger] name@[k])),
        decreases name.len() - i,
    {
        let b = name[i];
        if byte_is_letter(b) {
            shape.letters = shape.letters + 1;
        }
        if !byte_is_name(b) {
            shape.identifier = false;
        }
        if b == 0x5f {
            shape.underscore = true;
        }
        if byte_is_lower(b) {
            shape.lower = true;
        }
        i = i + 1;
    }
    shape
}

impl NoiseRule {
    /// Whether this entry rejects `name`; `underscore` says whether the name holds one.
    fn rejects(&self, name: &[u8], underscore: bool) -> (r: bool)
        requires
            underscore == has_underscore(name@),
        ensures
            r == noise_rejects(self@, name@),
    {
        let token = self.token.as_str().as_bytes();
        match self.how {
            NoiseMatch::Whole => equals(name, token, self.any_case),
            NoiseMatch::Part => contains(name, token, self.any_case),
            NoiseMatch::PartWithoutUnderscore => !underscore && contains(
                name,
                token,
                self.any_case,
            ),
        }
    }
}

impl NoiseRule {
    /// An entry for `token`, matched with regard to case.
    pub fn new(token: &str, how: NoiseMatch) -> (rule: NoiseRule)
        ensures
            rule.token@ == token@,
            rule.how == how,
            !rule.any_case,
    {
        NoiseRule { token: token.to_owned(), how, any_case: false }
    }
}

impl ClassifierPolicy {
    /// The standard rule table.
    pub fn standard() -> (policy: ClassifierPolicy)
        ensures
            policy@ == standard_table(),
    {
        let noise = vec![
            NoiseRule::new("HTTP", NoiseMatch::Whole),
            NoiseRule::new("HTTPS", NoiseMatch::Whole),
            NoiseRule::new("JSON", NoiseMatch::Whole),
            NoiseRule::new("UTF8", NoiseMatch::Whole),
            NoiseRule::new("WASM", NoiseMatch::Whole),
            NoiseRule::new("COMPONENT", NoiseMatch::Whole),
            NoiseRule::new("LOCALHOST", NoiseMatch::Whole),
            NoiseRule::new("MAIN", NoiseMatch::Whole),
            NoiseRule::new("FALSE", NoiseMatch::Whole),
            NoiseRule::new("TRUE", NoiseMatch::Whole),
            NoiseRule::new("FILE", NoiseMatch::Whole),
            NoiseRule::new("::", NoiseMatch::Part),
            NoiseRule::new("Error", NoiseMatch::PartWithoutUnderscore),
            NoiseRule::new("RUST_", NoiseMatch::Part),
            NoiseRule::new("BACKTRACE", NoiseMatch::Part),
        ];
        let keywords = vec![
            "_KEY".to_owned(),
            "_TOKEN".to_owned(),
            "_SECRET".to_owned(),
            "_PASSWORD".to_owned(),
            "_URL".to_owned(),
            "_DB".to_owned(),
            "API_KEY".to_owned(),
            "DATABASE_".to_owned(),
            "HOST_".to_owned(),
            "_PORT".to_owned(),
            "_API_".to_owned(),
            "BETTY_".to_owned(),
            "JWT".to_owned(),
        ];
        let policy = ClassifierPolicy {
            min_len: 4,
            max_len: 100,
            min_letters: 4,
            min_letter_percent: 50,
            noise,
            keywords,
        };
        assert(policy@.noise =~= standard_noise());
        assert(policy@.keywords =~= standard_keywords());
        policy
    }

    /// Whether the denylist rejects `name`.
    fn rejects_as_noise(&self, name: &[u8], underscore: bool) -> (r: bool)
        requires
            underscore == has_underscore(name@),
        ensures
            r == is_noise(self@, name@),
    {
        let mut i: usize = 0;
        while i < self.noise.len()
            invariant
                i <= self.noise.len(),
                underscore == has_underscore(name@),
                forall|k: int| 0 <= k < i ==> !noise_rejects(#[trigger] self@.noise[k], name@),
            decreases self.noise.len() - i,
        {
            if self.noise[i].rejects(name, underscore) {
                assert(noise_rejects(self@.noise[i as int], name@));
                return true;
            }
            i = i + 1;
        }
        false
    }

    /// Whether `name` holds a keyword fragment.
    fn holds_keyword(&self, name: &[u8]) -> (r: bool)
        ensures
            r == has_keyword(self@, name@),
    {
        let mut i: usize = 0;
        while i < self.keywords.len()
            invariant
                i <= self.keywords.len(),
                forall|k: int| 0 <= k < i ==> !occurs_in(name@, #[trigger] self@.keywords[k], true),
            decreases self.keywords.len() - i,
        {
            if contains(name, self.keywords[i].as_str().as_bytes(), true) {
                assert(occurs_in(name@, self@.keywords[i as int], true));
                return true;
            }
            i = i + 1;
        }
        false
    }

    /// Decides whether the bytes of `name` are a plausible environment-variable name.
    pub fn accepts_bytes(&self, name: &[u8]) -> (r: bool)
        ensures
            r == accepts(self@, name@),
    {
        let len = name.len();
        if len < self.min_len || len > self.max_len {
            return false;
        }
        let shape = shape_of(name);
        if !shape.identifier {
            return false;
        }
        if len > 0 && (name[0] == 0x5f || name[len - 1] == 0x5f) {
            return false;
        }
        if shape.letters < self.min_letters {
            return false;
        }
        proof {
            lemma_letters_bounded(name@, len as int);
        }
        assert(len * self.min_letter_percent <= 0xffff_ffff_ffff_ffff * 255) by (nonlinear_arith)
            requires
                0 <= len <= 0xffff_ffff_ffff_ffff,
                0 <= self.min_letter_percent <= 255,
        ;
        if (shape.letters as u128) * 100 < (len as u128) * (self.min_letter_percent as u128) {
            return false;
        }
        if self.rejects_as_noise(name, shape.underscore) {
            return false;
        }
        if !shape.underscore {
            return false;
        }
        !shape.lower || self.holds_keyword(name)
    }

    /// Decides whether `name` is a plausible environment-variable name.
    pub fn accepts_name(&self, name: &str) -> (r: bool)
        ensures
            r == accepts(self@, encode_utf8(name@)),
    {
        self.accepts_bytes(name.as_bytes())
    }
}

/// Decides by the standard rule table whether `s` is a plausible
/// environment-variable name.
pub fn is_env_var(s: &str) -> (r: bool)
    ensures
        r == is_env_var_name(encode_utf8(s@)),
{
    ClassifierPolicy::standard().accepts_name(s)
}

} // verus!
