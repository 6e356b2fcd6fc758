//! A typed model for declaring command-line options: the shapes a value may
//! take (`ArgumentType`), the tagged values themselves (`ArgumentValue`,
//! with tolerance-based float equality), and a fluent builder describing one
//! declarable option (`OptionDescription`).

use rustc_apfloat::Float;
use vstd::prelude::*;

verus! {

/// The shape of value an option may declare.
///
/// Purely descriptive: it carries no payload and is compared by variant
/// identity alone. For `List` and `Mapping`, a second `ArgumentType` (the
/// subtype) describes the shape of the elements.
#[derive(Clone, Copy, Debug, PartialEq, Eq, Structural)]
pub enum ArgumentType {
    /// This argument does not take a value. It is completely ignored.
    NoValue,
    /// This argument accepts any type.
    Any,
    /// This argument is a flag; it is either there or not.
    Bool,
    /// This argument accepts an integer as a value.
    Integer,
    /// This argument accepts a float as a value.
    Float,
    /// This argument accepts a string as a value.
    String,
    /// This argument can be specified multiple times.
    List,
    /// This argument maps string keys to values.
    Mapping,
}

/// IEEE binary64 bit pattern of the tolerance used when comparing two float
/// values for equality: one millionth (10^-6). Two floats are considered
/// equal when the magnitude of their difference is strictly below this.
pub const FLOAT_TOLERANCE_BITS: u64 = 0x3EB0_C6F7_A0B5_ED8D;

/// Names the outcome of the IEEE binary64 comparison `|x - y| < t`, where
/// `x`, `y` and `t` stand for the float values whose bit patterns are given.
/// The outcome is a function of the three bit patterns alone.
pub uninterp spec fn bits_abs_diff_below(x: u64, y: u64, t: u64) -> bool;

/// Relies on rustc_apfloat's IEEE binary64 arithmetic (`ieee::Double`):
/// decode the three bit patterns, subtract the first two values (round to
/// nearest, ties to even, as hardware floats round), take the magnitude,
/// and test whether it lies strictly below the third value. A NaN anywhere
/// makes the comparison false. The magnitude of the difference does not
/// depend on the order of the two operands, so the outcome is symmetric in
/// them.
#[verifier::external_body]
fn float_abs_diff_below(x: u64, y: u64, t: u64) -> (r: bool)
    ensures
        r == bits_abs_diff_below(x, y, t),
        r == bits_abs_diff_below(y, x, t),
{
    let a = rustc_apfloat::ieee::Double::from_bits(x as u128);
    let b = rustc_apfloat::ieee::Double::from_bits(y as u128);
    let tol = rustc_apfloat::ieee::Double::from_bits(t as u128);
    let diff = a.sub_r(b, rustc_apfloat::Round::NearestTiesToEven).value;
    diff.abs() < tol
}

/// The runtime value carried by one occurrence of an option: a tagged union
/// with one variant for each shape of `ArgumentType` that takes a payload.
///
/// A `Float` holds the IEEE binary64 bit pattern of its value, so that the
/// tolerance-based comparison below stays meaningful for bit patterns that
/// independent parses of the same text may produce.
///
/// `List` holds a set: the order of the elements is irrelevant and elements
/// are meant to be pairwise unequal under `value_eq_spec`. `Mapping` holds
/// string keys with a value each; the order of the pairs is irrelevant and
/// keys are meant to be pairwise distinct. Plain vectors back both, because
/// equality of the elements is tolerance-based for floats and therefore not
/// consistent with any hash of their bit patterns.
pub enum ArgumentValue {
    /// Absence of a value: a flag given without one.
    NoValue,
    Bool(bool),
    Integer(u64),
    Float(u64),
    String(String),
    List(Vec<ArgumentValue>),
    Mapping(Vec<(String, ArgumentValue)>),
}

/// Whether two values carry the same variant tag, whatever their payloads.
pub open spec fn same_variant(a: ArgumentValue, b: ArgumentValue) -> bool {
    match (a, b) {
        (ArgumentValue::NoValue, ArgumentValue::NoValue) => true,
        (ArgumentValue::Bool(_), ArgumentValue::Bool(_)) => true,
        (ArgumentValue::Integer(_), ArgumentValue::Integer(_)) => true,
        (ArgumentValue::Float(_), ArgumentValue::Float(_)) => true,
        (ArgumentValue::String(_), ArgumentValue::String(_)) => true,
        (ArgumentValue::List(_), ArgumentValue::List(_)) => true,
        (ArgumentValue::Mapping(_), ArgumentValue::Mapping(_)) => true,
        _ => false,
    }
}

/// What it means for two argument values to be equal: the same variant and,
/// for `Float`, values less than the tolerance apart; every other variant
/// asks for structural equality of the payload, where lists are compared as
/// unordered collections (each element of one has an equal element in the
/// other) and mappings as unordered key-value collections.
pub open spec fn value_eq_spec(a: ArgumentValue, b: ArgumentValue) -> bool
    decreases a, 0int,
{
    match (a, b) {
        (ArgumentValue::NoValue, ArgumentValue::NoValue) => true,
        (ArgumentValue::Bool(x), ArgumentValue::Bool(y)) => x == y,
        (ArgumentValue::Integer(x), ArgumentValue::Integer(y)) => x == y,
        (ArgumentValue::Float(x), ArgumentValue::Float(y)) => bits_abs_diff_below(
            x,
            y,
            FLOAT_TOLERANCE_BITS,
        ),
        (ArgumentValue::String(x), ArgumentValue::String(y)) => x@ == y@,
        (ArgumentValue::List(x), ArgumentValue::List(y)) => lists_set_eq(x@, y@),
        (ArgumentValue::Mapping(x), ArgumentValue::Mapping(y)) => mappings_eq(x@, y@),
        _ => false,
    }
}

/// Set equality of two lists of values: each element of either list has an
/// equal element in the other. Order and multiplicity are irrelevant.
pub open spec fn lists_set_eq(xs: Seq<ArgumentValue>, ys: Seq<ArgumentValue>) -> bool
    decreases xs, 2int,
{
    &&& forall|i: int| 0 <= i < xs.len() ==> eq_member_of(#[trigger] xs[i], ys)
    &&& forall|j: int| 0 <= j < ys.len() ==> has_eq_member(xs, #[trigger] ys[j])
}

/// Equality of two mappings: each key-value entry of either mapping has an
/// entry in the other with an equal key and an equal value. The order of
/// the entries is irrelevant.
pub open spec fn mappings_eq(
    xs: Seq<(String, ArgumentValue)>,
    ys: Seq<(String, ArgumentValue)>,
) -> bool
    decreases xs, 2int,
{
    &&& forall|i: int| 0 <= i < xs.len() ==> eq_entry_of(#[trigger] xs[i], ys)
    &&& forall|j: int| 0 <= j < ys.len() ==> has_eq_entry(xs, #[trigger] ys[j])
}

/// Whether the list `ys` holds an element equal to `v` (an element of the
/// left-hand list of a comparison).
pub open spec fn eq_member_of(v: ArgumentValue, ys: Seq<ArgumentValue>) -> bool
    decreases v, 1int,
{
    exists|j: int| 0 <= j < ys.len() && value_eq_spec(v, #[trigger] ys[j])
}

/// Whether the list `xs` holds an element equal to `w` (an element of the
/// right-hand list of a comparison).
pub open spec fn has_eq_member(xs: Seq<ArgumentValue>, w: ArgumentValue) -> bool
    decreases xs, 1int,
{
    exists|i: int| 0 <= i < xs.len() && value_eq_spec(#[trigger] xs[i], w)
}

/// Whether the mapping `ys` holds an entry whose key equals that of `p` and
/// whose value equals that of `p` (an entry of the left-hand mapping).
pub open spec fn eq_entry_of(p: (String, ArgumentValue), ys: Seq<(String, ArgumentValue)>) -> bool
    decreases p, 1int,
{
    exists|j: int|
        0 <= j < ys.len() && (#[trigger] ys[j]).0@ == p.0@ && value_eq_spec(p.1, ys[j].1)
}

/// Whether the mapping `xs` holds an entry whose key equals that of `q` and
/// whose value equals that of `q` (an entry of the right-hand mapping).
pub open spec fn has_eq_entry(xs: Seq<(String, ArgumentValue)>, q: (String, ArgumentValue)) -> bool
    decreases xs, 1int,
{
    exists|i: int|
        0 <= i < xs.len() && (#[trigger] xs[i]).0@ == q.0@ && value_eq_spec(xs[i].1, q.1)
}

impl ArgumentValue {
    /// Decide equality of two values: the same variant and, for `Float`,
    /// values less than the tolerance apart; every other variant asks for
    /// structural equality of the payload, with lists and mappings compared
    /// as unordered collections. A naive derived equality would be wrong for
    /// this type: the `Float` case must be tolerance-based.
    #[verifier::loop_isolation(false)]
    pub fn value_eq(&self, other: &ArgumentValue) -> (r: bool)
        ensures
            r == value_eq_spec(*self, *other),
        decreases *self,
    {
        match self {
            ArgumentValue::NoValue => match other {
                ArgumentValue::NoValue => true,
                _ => false,
            },
            ArgumentValue::Bool(x) => match other {
                ArgumentValue::Bool(y) => {
                    proof {
                        assert(value_eq_spec(*self, *other) == (*x == *y));
                    }
                    *x == *y
                },
                _ => {
                    proof {
                        assert(!value_eq_spec(*self, *other));
                    }
                    false
                },
            },
            ArgumentValue::Integer(x) => match other {
                ArgumentValue::Integer(y) => *x == *y,
                _ => false,
            },
            ArgumentValue::Float(x) => match other {
                ArgumentValue::Float(y) => float_abs_diff_below(*x, *y, FLOAT_TOLERANCE_BITS),
                _ => false,
            },
            ArgumentValue::String(x) => match other {
                ArgumentValue::String(y) => x.eq(y),
                _ => false,
            },
            ArgumentValue::List(x) => match other {
                ArgumentValue::List(y) => {
                    let mut forward = true;
                    let mut i: usize = 0;
                    while i < x.len()
                        invariant
                            i <= x@.len(),
                            forward == forall|i2: int|
                                0 <= i2 < i ==> eq_member_of(#[trigger] x@[i2], y@),
                        decreases x@.len() - i,
                    {
                        let mut found = false;
                        let mut j: usize = 0;
                        while j < y.len()
                            invariant
                                0 <= i < x@.len(),
                                j <= y@.len(),
                                found == exists|j2: int|
                                    0 <= j2 < j && value_eq_spec(x@[i as int], #[trigger] y@[j2]),
                            decreases y@.len() - j,
                        {
                            proof {
                                assert(decreases_to!(*self => *x));
                                assert(decreases_to!(*x => x@));
                                assert(decreases_to!(x@ => x@[i as int]));
                            }
                            if x[i].value_eq(&y[j]) {
                                found = true;
                            }
                            j += 1;
                        }
                        proof {
                            assert(found == eq_member_of(x@[i as int], y@));
                        }
                        forward = forward && found;
                        i += 1;
                    }
                    let mut backward = true;
                    let mut j: usize = 0;
                    while j < y.len()
                        invariant
                            j <= y@.len(),
                            backward == forall|j2: int|
                                0 <= j2 < j ==> has_eq_member(x@, #[trigger] y@[j2]),
                        decreases y@.len() - j,
                    {
                        let mut found = false;
                        let mut i: usize = 0;
                        while i < x.len()
                            invariant
                                0 <= j < y@.len(),
                                i <= x@.len(),
                                found == exists|i2: int|
                                    0 <= i2 < i && value_eq_spec(#[trigger] x@[i2], y@[j as int]),
                            decreases x@.len() - i,
                        {
                            proof {
                                assert(decreases_to!(*self => *x));
                                assert(decreases_to!(*x => x@));
                                assert(decreases_to!(x@ => x@[i as int]));
                            }
                            if x[i].value_eq(&y[j]) {
                                found = true;
                            }
                            i += 1;
                        }
                        proof {
                            assert(found == has_eq_member(x@, y@[j as int]));
                        }
                        backward = backward && found;
                        j += 1;
                    }
                    proof {
                        assert(forward == (forall|i2: int|
                            0 <= i2 < x@.len() ==> eq_member_of(#[trigger] x@[i2], y@)));
                        assert(backward == (forall|j2: int|
                            0 <= j2 < y@.len() ==> has_eq_member(x@, #[trigger] y@[j2])));
                        assert(lists_set_eq(x@, y@) == (forward && backward));
                    }
                    forward && backward
                },
                _ => false,
            },
            ArgumentValue::Mapping(x) => match other {
                ArgumentValue::Mapping(y) => {
                    let mut forward = true;
                    let mut i: usize = 0;
                    while i < x.len()
                        invariant
                            i <= x@.len(),
                            forward == forall|i2: int|
                                0 <= i2 < i ==> eq_entry_of(#[trigger] x@[i2], y@),
                        decreases x@.len() - i,
                    {
                        let mut found = false;
                        let mut j: usize = 0;
                        while j < y.len()
                            invariant
                                0 <= i < x@.len(),
                                j <= y@.len(),
                                found == exists|j2: int|
                                    0 <= j2 < j && (#[trigger] y@[j2]).0@ == x@[i as int].0@
                                        && value_eq_spec(x@[i as int].1, y@[j2].1),
                            decreases y@.len() - j,
                        {
                            proof {
                                assert(decreases_to!(*self => *x));
                                assert(decreases_to!(*x => x@));
                                assert(decreases_to!(x@ => x@[i as int]));
                                assert(decreases_to!(x@[i as int] => x@[i as int].1));
                            }
                            let p = &x[i];
                            let q = &y[j];
                            if p.0.eq(&q.0) && p.1.value_eq(&q.1) {
                                found = true;
                            }
                            j += 1;
                        }
                        proof {
                            assert(found == eq_entry_of(x@[i as int], y@));
                        }
                        forward = forward && found;
                        i += 1;
                    }
                    let mut backward = true;
                    let mut j: usize = 0;
                    while j < y.len()
                        invariant
                            j <= y@.len(),
                            backward == forall|j2: int|
                                0 <= j2 < j ==> has_eq_entry(x@, #[trigger] y@[j2]),
                        decreases y@.len() - j,
                    {
                        let mut found = false;
                        let mut i: usize = 0;
                        while i < x.len()
                            invariant
                                0 <= j < y@.len(),
                                i <= x@.len(),
                                found == exists|i2: int|
                                    0 <= i2 < i && (#[trigger] x@[i2]).0@ == y@[j as int].0@
                                        && value_eq_spec(x@[i2].1, y@[j as int].1),
                            decreases x@.len() - i,
                        {
                            proof {
                                assert(decreases_to!(*self => *x));
                                assert(decreases_to!(*x => x@));
                                assert(decreases_to!(x@ => x@[i as int]));
                                assert(decreases_to!(x@[i as int] => x@[i as int].1));
                            }
                            let p = &x[i];
                            let q = &y[j];
                            if p.0.eq(&q.0) && p.1.value_eq(&q.1) {
                                found = true;
                            }
                            i += 1;
                        }
                        proof {
                            assert(found == has_eq_entry(x@, y@[j as int]));
                        }
                        backward = backward && found;
                        j += 1;
                    }
                    proof {
                        assert(mappings_eq(x@, y@) == (forward && backward));
                    }
                    forward && backward
                },
                _ => false,
            },
        }
    }
}

/// Two values of different variants are never equal, whatever their
/// payloads: equality first asks for the same variant tag. In particular an
/// `Integer` is never equal to a `Float`, even when both stand for zero.
pub proof fn lemma_cross_variant_unequal(a: ArgumentValue, b: ArgumentValue)
    requires
        !same_variant(a, b),
    ensures
        !value_eq_spec(a, b),
{
}

/// The mathematical model of an `OptionDescription`: each stored text as a
/// sequence of characters, each alias collection as a sequence without
/// duplicates, and each optional field as an `Option`.
#[verifier::ext_equal]
pub struct OptionModel {
    pub name: Seq<char>,
    pub long: Seq<Seq<char>>,
    pub short: Seq<char>,
    pub description: Seq<char>,
    pub usage: Option<Seq<char>>,
    pub disabled: Option<Seq<char>>,
    pub deprecated: Option<Seq<char>>,
    pub argtype: Option<ArgumentType>,
    pub subtype: Option<ArgumentType>,
    pub positional: Option<u32>,
    pub values: Option<Seq<ArgumentValue>>,
}

/// The model of an optional text: the stored characters, if any.
pub open spec fn text_view(o: Option<String>) -> Option<Seq<char>> {
    match o {
        Some(t) => Some(t@),
        None => None,
    }
}

/// The model of an optional value sequence: the stored values, if any.
pub open spec fn values_view(o: Option<Vec<ArgumentValue>>) -> Option<Seq<ArgumentValue>> {
    match o {
        Some(vs) => Some(vs@),
        None => None,
    }
}

/// Insert an alias into an alias collection: a no-op when an equal alias is
/// already present, an append otherwise. Repeated builder calls therefore
/// grow the collection without ever duplicating an entry.
pub open spec fn insert_alias<A>(aliases: Seq<A>, alias: A) -> Seq<A> {
    if aliases.contains(alias) {
        aliases
    } else {
        aliases.push(alias)
    }
}

/// Inserting the same alias twice leaves exactly what one insertion
/// leaves: `insert_alias` is idempotent, so `.long("x").long("x")` yields a
/// single `"x"` entry.
pub proof fn lemma_insert_alias_idempotent<A>(aliases: Seq<A>, alias: A)
    ensures
        insert_alias(insert_alias(aliases, alias), alias) == insert_alias(aliases, alias),
{
    if !aliases.contains(alias) {
        assert(aliases.push(alias)[aliases.len() as int] == alias);
        assert(aliases.push(alias).contains(alias));
    }
}

/// What inserting an alias guarantees: the alias is present afterwards;
/// the entries already present stay, each in its place; and a collection
/// without duplicates stays without duplicates. The alias collections the
/// builder grows therefore never shrink and never hold an entry twice.
pub proof fn lemma_insert_alias_properties<A>(aliases: Seq<A>, alias: A)
    ensures
        insert_alias(aliases, alias).contains(alias),
        aliases.len() <= insert_alias(aliases, alias).len(),
        forall|i: int| 0 <= i < aliases.len() ==> insert_alias(aliases, alias)[i] == aliases[i],
        aliases.no_duplicates() ==> insert_alias(aliases, alias).no_duplicates(),
{
    if !aliases.contains(alias) {
        let grown = aliases.push(alias);
        assert(grown[aliases.len() as int] == alias);
        assert(grown.contains(alias));
        if aliases.no_duplicates() {
            assert forall|i: int, j: int|
                0 <= i < grown.len() && 0 <= j < grown.len() && i != j implies grown[i]
                != grown[j] by {
                if i < aliases.len() && j < aliases.len() {
                    assert(grown[i] == aliases[i]);
                    assert(grown[j] == aliases[j]);
                } else if j == aliases.len() {
                    assert(grown[i] == aliases[i]);
                    assert(!aliases.contains(alias));
                } else {
                    assert(grown[j] == aliases[j]);
                    assert(!aliases.contains(alias));
                }
            }
            assert(grown.no_duplicates());
        }
    }
}

/// A description of one declarable command-line option, configured through
/// chained builder calls: its canonical name, its long and short aliases,
/// its help and usage text, lifecycle markers, the declared shape of its
/// value, and optional sample values.
pub struct OptionDescription {
    name_: String,
    long_: Vec<String>,
    short_: Vec<char>,
    description_: String,
    usage_: Option<String>,
    disabled_: Option<String>,
    deprecated_: Option<String>,
    argtype_: Option<ArgumentType>,
    subtype_: Option<ArgumentType>,
    positional_: Option<u32>,
    values_: Option<Vec<ArgumentValue>>,
}

impl View for OptionDescription {
    type V = OptionModel;

    closed spec fn view(&self) -> OptionModel {
        OptionModel {
            name: self.name_@,
            long: self.long_@.map_values(|a: String| a@),
            short: self.short_@,
            description: self.description_@,
            usage: text_view(self.usage_),
            disabled: text_view(self.disabled_),
            deprecated: text_view(self.deprecated_),
            argtype: self.argtype_,
            subtype: self.subtype_,
            positional: self.positional_,
            values: values_view(self.values_),
        }
    }
}

impl OptionDescription {
    /// Build a fresh description with the given canonical name; every other
    /// field starts empty or unset.
    pub fn new(name: &str) -> (r: OptionDescription)
        ensures
            r@ == (OptionModel {
                name: name@,
                long: Seq::empty(),
                short: Seq::empty(),
                description: Seq::empty(),
                usage: None,
                disabled: None,
                deprecated: None,
                argtype: None,
                subtype: None,
                positional: None,
                values: None,
            }),
    {
        let d = OptionDescription {
            name_: name.to_owned(),
            long_: Vec::new(),
            short_: Vec::new(),
            description_: String::new(),
            usage_: None,
            disabled_: None,
            deprecated_: None,
            argtype_: None,
            subtype_: None,
            positional_: None,
            values_: None,
        };
        proof {
            assert(d@.long =~= Seq::<Seq<char>>::empty());
            assert(d@ =~= (OptionModel {
                name: name@,
                long: Seq::empty(),
                short: Seq::empty(),
                description: Seq::empty(),
                usage: None,
                disabled: None,
                deprecated: None,
                argtype: None,
                subtype: None,
                positional: None,
                values: None,
            }));
        }
        d
    }

    /// Add a long-form alias; adding one that is already present changes
    /// nothing.
    #[verifier::loop_isolation(false)]
    pub fn long(self, long: &str) -> (r: OptionDescription)
        ensures
            r@ == (OptionModel { long: insert_alias(self@.long, long@), ..self@ }),
    {
        let mut d = self;
        let alias = long.to_owned();
        let mut present = false;
        let mut i: usize = 0;
        while i < d.long_.len()
            invariant
                i <= d.long_@.len(),
                present == (exists|k: int| 0 <= k < i && (#[trigger] d.long_@[k])@ == long@),
            decreases d.long_@.len() - i,
        {
            if d.long_[i].eq(&alias) {
                present = true;
            }
            i += 1;
        }
        proof {
            if present {
                let k = choose|k: int| 0 <= k < d.long_@.len() && (#[trigger] d.long_@[k])@ == long@;
                assert(self@.long[k] == long@);
                assert(self@.long.contains(long@));
            } else {
                assert forall|k: int| 0 <= k < self@.long.len() implies #[trigger] self@.long[k]
                    != long@ by {
                    assert(self@.long[k] == d.long_@[k]@);
                }
                assert(!self@.long.contains(long@));
            }
        }
        if !present {
            d.long_.push(alias);
            proof {
                assert(d@.long =~= self@.long.push(long@));
            }
        }
        proof {
            assert(d@ =~= (OptionModel { long: insert_alias(self@.long, long@), ..self@ }));
        }
        d
    }

    /// Add a single-character alias; adding one that is already present
    /// changes nothing.
    #[verifier::loop_isolation(false)]
    pub fn short(self, short: char) -> (r: OptionDescription)
        ensures
            r@ == (OptionModel { short: insert_alias(self@.short, short), ..self@ }),
    {
        let mut d = self;
        let mut present = false;
        let mut i: usize = 0;
        while i < d.short_.len()
            invariant
                i <= d.short_@.len(),
                present == (exists|k: int| 0 <= k < i && #[trigger] d.short_@[k] == short),
            decreases d.short_@.len() - i,
        {
            if d.short_[i] == short {
                present = true;
            }
            i += 1;
        }
        if !present {
            d.short_.push(short);
        }
        proof {
            assert(d@ =~= (OptionModel { short: insert_alias(self@.short, short), ..self@ }));
        }
        d
    }

    /// Set the help text; a later call replaces an earlier one.
    pub fn description(self, description: &str) -> (r: OptionDescription)
        ensures
            r@ == (OptionModel { description: description@, ..self@ }),
    {
        let mut d = self;
        d.description_ = description.to_owned();
        proof {
            assert(d@ =~= (OptionModel { description: description@, ..self@ }));
        }
        d
    }

    /// Set the usage override text; a later call replaces an earlier one.
    pub fn usage(self, usage: &str) -> (r: OptionDescription)
        ensures
            r@ == (OptionModel { usage: Some(usage@), ..self@ }),
    {
        let mut d = self;
        d.usage_ = Some(usage.to_owned());
        proof {
            assert(d@ =~= (OptionModel { usage: Some(usage@), ..self@ }));
        }
        d
    }

    /// Mark the option as disabled for the given reason; a later call
    /// replaces an earlier one.
    pub fn disabled(self, disabled: &str) -> (r: OptionDescription)
        ensures
            r@ == (OptionModel { disabled: Some(disabled@), ..self@ }),
    {
        let mut d = self;
        d.disabled_ = Some(disabled.to_owned());
        proof {
            assert(d@ =~= (OptionModel { disabled: Some(disabled@), ..self@ }));
        }
        d
    }

    /// Mark the option as deprecated for the given reason; a later call
    /// replaces an earlier one.
    pub fn deprecated(self, deprecated: &str) -> (r: OptionDescription)
        ensures
            r@ == (OptionModel { deprecated: Some(deprecated@), ..self@ }),
    {
        let mut d = self;
        d.deprecated_ = Some(deprecated.to_owned());
        proof {
            assert(d@ =~= (OptionModel { deprecated: Some(deprecated@), ..self@ }));
        }
        d
    }

    /// Declare the shape of value the option accepts; a later call replaces
    /// an earlier one.
    pub fn argtype(self, argtype: ArgumentType) -> (r: OptionDescription)
        ensures
            r@ == (OptionModel { argtype: Some(argtype), ..self@ }),
    {
        let mut d = self;
        d.argtype_ = Some(argtype);
        proof {
            assert(d@ =~= (OptionModel { argtype: Some(argtype), ..self@ }));
        }
        d
    }
}


impl PartialEq for ArgumentValue {
    /// Equality of argument values is `value_eq`: a derived structural
    /// equality would wrongly compare float bit patterns exactly.
    fn eq(&self, other: &ArgumentValue) -> (r: bool) {
        self.value_eq(other)
    }
}

impl vstd::std_specs::cmp::PartialEqSpecImpl for ArgumentValue {
    open spec fn obeys_eq_spec() -> bool {
        true
    }

    open spec fn eq_spec(&self, other: &ArgumentValue) -> bool {
        value_eq_spec(*self, *other)
    }
}

impl From<bool> for ArgumentValue {
    /// Wrap a boolean as a `Bool` value.
    fn from(v: bool) -> (r: ArgumentValue) {
        ArgumentValue::Bool(v)
    }
}

impl vstd::std_specs::convert::FromSpecImpl<bool> for ArgumentValue {
    open spec fn obeys_from_spec() -> bool {
        true
    }

    open spec fn from_spec(v: bool) -> ArgumentValue {
        ArgumentValue::Bool(v)
    }
}

impl From<u64> for ArgumentValue {
    /// Wrap an unsigned integer as an `Integer` value.
    fn from(v: u64) -> (r: ArgumentValue) {
        ArgumentValue::Integer(v)
    }
}

impl vstd::std_specs::convert::FromSpecImpl<u64> for ArgumentValue {
    open spec fn obeys_from_spec() -> bool {
        true
    }

    open spec fn from_spec(v: u64) -> ArgumentValue {
        ArgumentValue::Integer(v)
    }
}

impl From<String> for ArgumentValue {
    /// Wrap an owned text as a `String` value.
    fn from(v: String) -> (r: ArgumentValue) {
        ArgumentValue::String(v)
    }
}

impl vstd::std_specs::convert::FromSpecImpl<String> for ArgumentValue {
    open spec fn obeys_from_spec() -> bool {
        true
    }

    open spec fn from_spec(v: String) -> ArgumentValue {
        ArgumentValue::String(v)
    }
}

impl<'a> From<&'a str> for ArgumentValue {
    /// Copy a text slice into a `String` value.
    fn from(v: &'a str) -> (r: ArgumentValue)
        ensures
            r matches ArgumentValue::String(t) && t@ == v@,
    {
        ArgumentValue::String(v.to_owned())
    }
}

impl<'a> vstd::std_specs::convert::FromSpecImpl<&'a str> for ArgumentValue {
    open spec fn obeys_from_spec() -> bool {
        false
    }

    open spec fn from_spec(v: &'a str) -> ArgumentValue {
        arbitrary()
    }
}

impl ArgumentValue {
    /// The float constructor: wrap the IEEE binary64 bit pattern of a float
    /// as a `Float` value.
    pub fn from_float_bits(bits: u64) -> (r: ArgumentValue)
        ensures
            r == ArgumentValue::Float(bits),
    {
        ArgumentValue::Float(bits)
    }
}


/// When two descriptions declare the same logical option: same name, same
/// declared value shape and element shape, same positional slot, and
/// agreeing presence of the disabled and deprecated markers. Aliases, help
/// text, usage text, sample values and the markers' message text play no
/// part.
pub open spec fn descriptions_equal(a: OptionModel, b: OptionModel) -> bool {
    &&& a.name == b.name
    &&& a.argtype == b.argtype
    &&& a.subtype == b.subtype
    &&& a.positional == b.positional
    &&& (a.disabled is Some) == (b.disabled is Some)
    &&& (a.deprecated is Some) == (b.deprecated is Some)
}

fn option_type_eq(a: &Option<ArgumentType>, b: &Option<ArgumentType>) -> (r: bool)
    ensures
        r == (*a == *b),
{
    match a {
        Some(x) => match b {
            Some(y) => *x == *y,
            None => false,
        },
        None => b.is_none(),
    }
}

fn option_index_eq(a: &Option<u32>, b: &Option<u32>) -> (r: bool)
    ensures
        r == (*a == *b),
{
    match a {
        Some(x) => match b {
            Some(y) => *x == *y,
            None => false,
        },
        None => b.is_none(),
    }
}

impl PartialEq for OptionDescription {
    /// Two descriptions are equal when they declare the same logical
    /// option, as `descriptions_equal` states.
    fn eq(&self, other: &OptionDescription) -> (r: bool) {
        self.name_.eq(&other.name_) && option_type_eq(&self.argtype_, &other.argtype_)
            && option_type_eq(&self.subtype_, &other.subtype_) && option_index_eq(
            &self.positional_,
            &other.positional_,
        ) && (self.disabled_.is_none() == other.disabled_.is_none()) && (
        self.deprecated_.is_none() == other.deprecated_.is_none())
    }
}

impl vstd::std_specs::cmp::PartialEqSpecImpl for OptionDescription {
    open spec fn obeys_eq_spec() -> bool {
        true
    }

    open spec fn eq_spec(&self, other: &OptionDescription) -> bool {
        descriptions_equal(self@, other@)
    }
}

/// Descriptions that agree on name, declared types, positional slot and
/// the presence of the disabled and deprecated markers are equal — whatever
/// their aliases, help text, usage text or sample values hold. This is what
/// `==` on descriptions decides.
pub proof fn lemma_eq_ignores_presentation(a: OptionDescription, b: OptionDescription)
    requires
        a@.name == b@.name,
        a@.argtype == b@.argtype,
        a@.subtype == b@.subtype,
        a@.positional == b@.positional,
        (a@.disabled is Some) == (b@.disabled is Some),
        (a@.deprecated is Some) == (b@.deprecated is Some),
    ensures
        descriptions_equal(a@, b@),
{
}

impl OptionDescription {
    /// The canonical name.
    pub fn name(&self) -> (r: &str)
        ensures
            r@ == self@.name,
    {
        self.name_.as_str()
    }

    /// The long-form aliases gathered so far.
    pub fn long_aliases(&self) -> (r: &Vec<String>)
        ensures
            r@.map_values(|a: String| a@) == self@.long,
    {
        &self.long_
    }

    /// The single-character aliases gathered so far.
    pub fn short_aliases(&self) -> (r: &Vec<char>)
        ensures
            r@ == self@.short,
    {
        &self.short_
    }

    /// The help text; empty until `description` is called.
    pub fn description_text(&self) -> (r: &str)
        ensures
            r@ == self@.description,
    {
        self.description_.as_str()
    }

    /// The usage override text, if one was set.
    pub fn usage_text(&self) -> (r: &Option<String>)
        ensures
            text_view(*r) == self@.usage,
    {
        &self.usage_
    }

    /// The reason the option is disabled, if it is.
    pub fn disabled_reason(&self) -> (r: &Option<String>)
        ensures
            text_view(*r) == self@.disabled,
    {
        &self.disabled_
    }

    /// The reason the option is deprecated, if it is.
    pub fn deprecated_reason(&self) -> (r: &Option<String>)
        ensures
            text_view(*r) == self@.deprecated,
    {
        &self.deprecated_
    }

    /// The declared shape of the option's value, if one was set.
    pub fn argument_type(&self) -> (r: &Option<ArgumentType>)
        ensures
            *r == self@.argtype,
    {
        &self.argtype_
    }

    /// The declared shape of list or mapping elements, if one was set.
    pub fn element_subtype(&self) -> (r: &Option<ArgumentType>)
        ensures
            *r == self@.subtype,
    {
        &self.subtype_
    }

    /// The zero-based positional slot, when the option is positional.
    pub fn positional_index(&self) -> (r: &Option<u32>)
        ensures
            *r == self@.positional,
    {
        &self.positional_
    }

    /// The fixed sequence of default or sample values, if one was set.
    pub fn default_values(&self) -> (r: &Option<Vec<ArgumentValue>>)
        ensures
            values_view(*r) == self@.values,
    {
        &self.values_
    }
}


/// Whether a value holds no `Float` anywhere, not even nested in a list or
/// mapping.
pub open spec fn float_free(v: ArgumentValue) -> bool
    decreases v,
{
    match v {
        ArgumentValue::Float(_) => false,
        ArgumentValue::List(x) => forall|i: int|
            0 <= i < x@.len() ==> float_free(#[trigger] x@[i]),
        ArgumentValue::Mapping(x) => forall|i: int|
            0 <= i < x@.len() ==> float_free((#[trigger] x@[i]).1),
        _ => true,
    }
}

/// Every float-free value is equal to itself. (A `Float` is equal to itself
/// only when the tolerance comparison of its bit pattern against itself
/// says so, which the model does not settle; for every other variant,
/// equality of a value with itself holds structurally.)
pub proof fn lemma_value_eq_reflexive(v: ArgumentValue)
    requires
        float_free(v),
    ensures
        value_eq_spec(v, v),
    decreases v,
{
    match v {
        ArgumentValue::List(x) => {
            assert forall|i: int| 0 <= i < x@.len() implies eq_member_of(#[trigger] x@[i], x@) by {
                lemma_value_eq_reflexive(x@[i]);
                assert(value_eq_spec(x@[i], x@[i]));
            }
            assert forall|j: int| 0 <= j < x@.len() implies has_eq_member(x@, #[trigger] x@[j]) by {
                lemma_value_eq_reflexive(x@[j]);
                assert(value_eq_spec(x@[j], x@[j]));
            }
            assert(lists_set_eq(x@, x@));
        },
        ArgumentValue::Mapping(x) => {
            assert forall|i: int| 0 <= i < x@.len() implies eq_entry_of(#[trigger] x@[i], x@) by {
                lemma_value_eq_reflexive(x@[i].1);
                assert(value_eq_spec(x@[i].1, x@[i].1));
            }
            assert forall|j: int| 0 <= j < x@.len() implies has_eq_entry(x@, #[trigger] x@[j]) by {
                lemma_value_eq_reflexive(x@[j].1);
                assert(value_eq_spec(x@[j].1, x@[j].1));
            }
            assert(mappings_eq(x@, x@));
        },
        _ => {},
    }
}

/// Converting a primitive yields the variant that matches the primitive's
/// type, carrying the primitive itself — and such a value is equal to
/// itself.
pub proof fn lemma_from_primitive_roundtrip(b: bool, n: u64, s: String)
    ensures
        <ArgumentValue as vstd::std_specs::convert::FromSpec<bool>>::from_spec(b)
            == ArgumentValue::Bool(b),
        <ArgumentValue as vstd::std_specs::convert::FromSpec<u64>>::from_spec(n)
            == ArgumentValue::Integer(n),
        <ArgumentValue as vstd::std_specs::convert::FromSpec<String>>::from_spec(s)
            == ArgumentValue::String(s),
        value_eq_spec(ArgumentValue::Bool(b), ArgumentValue::Bool(b)),
        value_eq_spec(ArgumentValue::Integer(n), ArgumentValue::Integer(n)),
        value_eq_spec(ArgumentValue::String(s), ArgumentValue::String(s)),
{
}

impl Default for OptionDescription {
    /// The empty description: a blank name and every other field empty or
    /// unset.
    fn default() -> (r: OptionDescription)
        ensures
            r@ == (OptionModel {
                name: Seq::empty(),
                long: Seq::empty(),
                short: Seq::empty(),
                description: Seq::empty(),
                usage: None,
                disabled: None,
                deprecated: None,
                argtype: None,
                subtype: None,
                positional: None,
                values: None,
            }),
    {
        proof {
            reveal_strlit("");
        }
        let d = OptionDescription::new("");
        proof {
            assert(""@ =~= Seq::<char>::empty());
            assert(d@ =~= (OptionModel {
                name: Seq::empty(),
                long: Seq::empty(),
                short: Seq::empty(),
                description: Seq::empty(),
                usage: None,
                disabled: None,
                deprecated: None,
                argtype: None,
                subtype: None,
                positional: None,
                values: None,
            }));
        }
        d
    }
}

} // verus!
