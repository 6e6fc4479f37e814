use vstd::prelude::*;

verus! {

/// One whole unit of an attribute value. Attribute values, modifier values and
/// percentage factors are fixed-point numbers counted in thousandths, so
/// `UNIT` stands for 1.0 and `UNIT / 2` for 0.5.
pub const UNIT: i64 = 1000;

/// `x` pushed into the range of `i64`: arithmetic on attribute values saturates.
pub open spec fn saturate(x: int) -> int {
    if x < i64::MIN {
        i64::MIN as int
    } else if x > i64::MAX {
        i64::MAX as int
    } else {
        x
    }
}

/// `v` clamped into `[lo, hi]` (checked against `lo` first).
pub open spec fn clamp(v: int, lo: int, hi: int) -> int {
    if v < lo {
        lo
    } else if v > hi {
        hi
    } else {
        v
    }
}

/// `base * factor` where `factor` is a fixed-point fraction, rounded toward zero.
pub open spec fn percent_of(base: int, factor: int) -> int {
    let p = base * factor;
    if p >= 0 {
        p / (UNIT as int)
    } else {
        -((-p) / (UNIT as int))
    }
}

#[derive(Debug, Clone, Copy, PartialEq, Eq, Structural, Hash)]
pub enum ModifierOperation {
    Absolute,
    Override,
    Percentage,
}

/// Rank of a modifier; only used to choose among several Override modifiers.
#[derive(Debug, Clone, Copy, PartialEq, Eq, Structural, Hash, PartialOrd, Ord)]
pub struct ModifierPriority(pub usize);

/// Rank of the normal priority, the default.
pub const NORMAL_PRIORITY: usize = 50;

/// Rank of the low priority.
pub const LOW_PRIORITY: usize = 25;

impl ModifierPriority {
    pub fn normal() -> (r: Self)
        ensures
            r.0 == NORMAL_PRIORITY,
    {
        ModifierPriority(NORMAL_PRIORITY)
    }

    pub fn low() -> (r: Self)
        ensures
            r.0 == LOW_PRIORITY,
    {
        ModifierPriority(LOW_PRIORITY)
    }
}

impl Default for ModifierPriority {
    fn default() -> (r: Self)
        ensures
            r.0 == NORMAL_PRIORITY,
    {
        ModifierPriority::normal()
    }
}

/// An adjustment of an attribute's current value, contributed by some source.
#[derive(Debug, Clone)]
pub struct AttributeModifier {
    pub operation: ModifierOperation,
    pub value: i64,
    /// Identity token: two modifiers are the same modifier when their tokens are equal.
    pub uuid: u128,
    pub source_id: String,
    pub attribute_name: String,
    pub priority: ModifierPriority,
}

/// Relies on uuid::Uuid::new_v4 and Uuid::as_u128: a fresh random identity
/// token. Nothing is promised of its value.
#[verifier::external_body]
fn fresh_identity_token() -> u128 {
    uuid::Uuid::new_v4().as_u128()
}

impl AttributeModifier {
    /// An Absolute modifier of value 0 with a fresh identity token, empty source
    /// and attribute names, and normal priority.
    pub fn empty() -> (r: Self)
        ensures
            r.operation == ModifierOperation::Absolute,
            r.value == 0,
            r.source_id@ == Seq::<char>::empty(),
            r.attribute_name@ == Seq::<char>::empty(),
            r.priority.0 == NORMAL_PRIORITY,
    {
        AttributeModifier {
            operation: ModifierOperation::Absolute,
            value: 0,
            uuid: fresh_identity_token(),
            attribute_name: String::new(),
            source_id: String::new(),
            priority: ModifierPriority::normal(),
        }
    }

    pub fn new_override_modifier(source_id: &str, value: i64) -> (r: Self)
        ensures
            r.operation == ModifierOperation::Override,
            r.value == value,
            r.source_id@ == source_id@,
            r.attribute_name@ == Seq::<char>::empty(),
            r.priority.0 == NORMAL_PRIORITY,
    {
        let mut modifier = AttributeModifier::empty();
        modifier.source_id = source_id.to_owned();
        modifier.operation = ModifierOperation::Override;
        modifier.value = value;
        modifier
    }

    /// A field-for-field copy.
    pub fn duplicate(&self) -> (r: Self)
        ensures
            r == *self,
    {
        AttributeModifier {
            operation: self.operation,
            value: self.value,
            uuid: self.uuid,
            source_id: self.source_id.clone(),
            attribute_name: self.attribute_name.clone(),
            priority: self.priority,
        }
    }
}

impl PartialEq for AttributeModifier {
    fn eq(&self, other: &Self) -> (r: bool)
        ensures
            r == (self.uuid == other.uuid),
    {
        self.uuid == other.uuid
    }
}

impl vstd::std_specs::cmp::PartialEqSpecImpl for AttributeModifier {
    open spec fn obeys_eq_spec() -> bool {
        true
    }

    open spec fn eq_spec(&self, other: &AttributeModifier) -> bool {
        self.uuid == other.uuid
    }
}

impl Eq for AttributeModifier {

}

/// What one modifier adds during recalculation (Override modifiers add nothing).
pub open spec fn modifier_amount(base: int, m: AttributeModifier) -> int {
    match m.operation {
        ModifierOperation::Percentage => percent_of(base, m.value as int),
        ModifierOperation::Absolute => m.value as int,
        ModifierOperation::Override => 0,
    }
}

/// Starting from `start`, add the amount of every modifier of kind `op` in list
/// order, saturating after each step.
pub open spec fn accumulate(
    base: int,
    mods: Seq<AttributeModifier>,
    op: ModifierOperation,
    start: int,
) -> int
    decreases mods.len(),
{
    if mods.len() == 0 {
        start
    } else {
        let acc = accumulate(base, mods.drop_last(), op, start);
        if mods.last().operation == op {
            saturate(acc + modifier_amount(base, mods.last()))
        } else {
            acc
        }
    }
}

/// The winning Override modifier: the one of highest priority, the earliest
/// among equals; `init` is the winner of the modifiers seen before `mods`.
pub open spec fn top_override(
    mods: Seq<AttributeModifier>,
    init: Option<AttributeModifier>,
) -> Option<AttributeModifier>
    decreases mods.len(),
{
    if mods.len() == 0 {
        init
    } else {
        let prev = top_override(mods.drop_last(), init);
        let m = mods.last();
        if m.operation == ModifierOperation::Override && (prev is None || m.priority.0
            > prev->Some_0.priority.0) {
            Some(m)
        } else {
            prev
        }
    }
}

/// Base plus every Absolute amount, then every Percentage amount (taken of the
/// base), unless an Override modifier wins, whose value replaces all of that.
pub open spec fn combined_value(base: int, mods: Seq<AttributeModifier>) -> int {
    match top_override(mods, None) {
        Some(o) => o.value as int,
        None => accumulate(
            base,
            mods,
            ModifierOperation::Percentage,
            accumulate(base, mods, ModifierOperation::Absolute, base),
        ),
    }
}

/// The negative-value policy, then the range clamp.
pub open spec fn settle(v: int, can_be_negative: bool, min: int, max: int) -> int {
    clamp(
        if !can_be_negative && v < 0 {
            0
        } else {
            v
        },
        min,
        max,
    )
}

pub open spec fn derived_value(
    base: int,
    mods: Seq<AttributeModifier>,
    can_be_negative: bool,
    min: int,
    max: int,
) -> int {
    settle(combined_value(base, mods), can_be_negative, min, max)
}

/// Position of the first modifier at or after `k` whose identity token is `id`, or -1.
pub open spec fn token_position(mods: Seq<AttributeModifier>, id: u128, k: int) -> int
    decreases mods.len() - k,
{
    if k < 0 || k >= mods.len() {
        -1
    } else if mods[k].uuid == id {
        k
    } else {
        token_position(mods, id, k + 1)
    }
}

/// Position of the first modifier at or after `k` whose source is `src`, or -1.
pub open spec fn source_position(mods: Seq<AttributeModifier>, src: Seq<char>, k: int) -> int
    decreases mods.len() - k,
{
    if k < 0 || k >= mods.len() {
        -1
    } else if mods[k].source_id@ == src {
        k
    } else {
        source_position(mods, src, k + 1)
    }
}

/// `mods` with `m` in place of the modifier of the same source, or `m` appended.
pub open spec fn upsert_by_source(mods: Seq<AttributeModifier>, m: AttributeModifier) -> Seq<
    AttributeModifier,
> {
    let i = source_position(mods, m.source_id@, 0);
    if i >= 0 {
        mods.update(i, m)
    } else {
        mods.push(m)
    }
}

pub open spec fn sources_unique(mods: Seq<AttributeModifier>) -> bool {
    forall|i: int, j: int|
        0 <= i < j < mods.len() ==> #[trigger] mods[i].source_id@ != #[trigger] mods[j].source_id@
}

/// The identity tokens of `mods` from `k` on are all different from `id`
/// exactly when no position is found.
proof fn lemma_token_absent(mods: Seq<AttributeModifier>, id: u128, k: int)
    requires
        0 <= k,
        token_position(mods, id, k) < 0,
    ensures
        forall|j: int| k <= j < mods.len() ==> #[trigger] mods[j].uuid != id,
    decreases mods.len() - k,
{
    if k < mods.len() {
        lemma_token_absent(mods, id, k + 1);
    }
}

proof fn lemma_source_absent(mods: Seq<AttributeModifier>, src: Seq<char>, k: int)
    requires
        0 <= k,
        source_position(mods, src, k) < 0,
    ensures
        forall|j: int| k <= j < mods.len() ==> #[trigger] mods[j].source_id@ != src,
    decreases mods.len() - k,
{
    if k < mods.len() {
        lemma_source_absent(mods, src, k + 1);
    }
}

proof fn lemma_position_found(mods: Seq<AttributeModifier>, src: Seq<char>, k: int)
    requires
        0 <= k,
        source_position(mods, src, k) >= 0,
    ensures
        k <= source_position(mods, src, k) < mods.len(),
        mods[source_position(mods, src, k)].source_id@ == src,
    decreases mods.len() - k,
{
    if k < mods.len() && mods[k].source_id@ != src {
        lemma_position_found(mods, src, k + 1);
    }
}

proof fn lemma_token_found(mods: Seq<AttributeModifier>, id: u128, k: int)
    requires
        0 <= k,
        token_position(mods, id, k) >= 0,
    ensures
        k <= token_position(mods, id, k) < mods.len(),
        mods[token_position(mods, id, k)].uuid == id,
    decreases mods.len() - k,
{
    if k < mods.len() && mods[k].uuid != id {
        lemma_token_found(mods, id, k + 1);
    }
}

proof fn lemma_accumulate_concat(
    base: int,
    s1: Seq<AttributeModifier>,
    s2: Seq<AttributeModifier>,
    op: ModifierOperation,
    start: int,
)
    ensures
        accumulate(base, s1 + s2, op, start) == accumulate(
            base,
            s2,
            op,
            accumulate(base, s1, op, start),
        ),
    decreases s2.len(),
{
    if s2.len() == 0 {
        assert(s1 + s2 =~= s1);
    } else {
        assert((s1 + s2).drop_last() =~= s1 + s2.drop_last());
        lemma_accumulate_concat(base, s1, s2.drop_last(), op, start);
    }
}

proof fn lemma_top_override_concat(
    s1: Seq<AttributeModifier>,
    s2: Seq<AttributeModifier>,
    init: Option<AttributeModifier>,
)
    ensures
        top_override(s1 + s2, init) == top_override(s2, top_override(s1, init)),
    decreases s2.len(),
{
    if s2.len() == 0 {
        assert(s1 + s2 =~= s1);
    } else {
        assert((s1 + s2).drop_last() =~= s1 + s2.drop_last());
        lemma_top_override_concat(s1, s2.drop_last(), init);
    }
}

/// The exact fixed-point product that `percent_of` describes.
fn percent_amount(base: i64, factor: i64) -> (r: i128)
    ensures
        r == percent_of(base as int, factor as int),
        -0x4000_0000_0000_0000_0000_0000_0000_0000 <= r <= 0x4000_0000_0000_0000_0000_0000_0000_0000,
{
    let b = base as i128;
    let f = factor as i128;
    assert(-0x4000_0000_0000_0000_0000_0000_0000_0000 <= b * f <= 0x4000_0000_0000_0000_0000_0000_0000_0000)
        by (nonlinear_arith)
        requires
            -0x8000_0000_0000_0000 <= b <= 0x7fff_ffff_ffff_ffff,
            -0x8000_0000_0000_0000 <= f <= 0x7fff_ffff_ffff_ffff,
    ;
    let p: i128 = b * f;
    if p >= 0 {
        ((p as u128) / (UNIT as u128)) as i128
    } else {
        -((((-p) as u128) / (UNIT as u128)) as i128)
    }
}

fn saturating_narrow(x: i128) -> (r: i64)
    ensures
        r == saturate(x as int),
{
    if x < i64::MIN as i128 {
        i64::MIN
    } else if x > i64::MAX as i128 {
        i64::MAX
    } else {
        x as i64
    }
}

/// Adds the amounts of the modifiers of kind `op` to `start`, in list order.
fn accumulate_kind(base: i64, mods: &Vec<AttributeModifier>, op: ModifierOperation, start: i64) -> (r: i64)
    ensures
        r == accumulate(base as int, mods@, op, start as int),
{
    let mut acc: i64 = start;
    let mut i: usize = 0;
    while i < mods.len()
        invariant
            i <= mods@.len(),
            acc == accumulate(base as int, mods@.take(i as int), op, start as int),
        decreases mods@.len() - i,
    {
        let m = &mods[i];
        proof {
            assert(mods@.take(i as int + 1).drop_last() =~= mods@.take(i as int));
            assert(mods@.take(i as int + 1).last() == mods@[i as int]);
        }
        if m.operation == op {
            let amount: i128 = match m.operation {
                ModifierOperation::Percentage => percent_amount(base, m.value),
                ModifierOperation::Absolute => m.value as i128,
                ModifierOperation::Override => 0,
            };
            acc = saturating_narrow(acc as i128 + amount);
        }
        i = i + 1;
    }
    assert(mods@.take(mods@.len() as int) =~= mods@);
    acc
}

/// The rank and value of an Override winner, as `top_override` describes it.
spec fn describes_winner(e: Option<(usize, i64)>, w: Option<AttributeModifier>) -> bool {
    match (e, w) {
        (None, None) => true,
        (Some(p), Some(m)) => p.0 == m.priority.0 && p.1 == m.value,
        _ => false,
    }
}

fn pick_override(
    mods: &Vec<AttributeModifier>,
    init: Option<(usize, i64)>,
    Ghost(winner): Ghost<Option<AttributeModifier>>,
) -> (r: Option<(usize, i64)>)
    requires
        describes_winner(init, winner),
    ensures
        describes_winner(r, top_override(mods@, winner)),
{
    let mut best = init;
    let mut i: usize = 0;
    while i < mods.len()
        invariant
            i <= mods@.len(),
            describes_winner(best, top_override(mods@.take(i as int), winner)),
        decreases mods@.len() - i,
    {
        let m = &mods[i];
        proof {
            assert(mods@.take(i as int + 1).drop_last() =~= mods@.take(i as int));
            assert(mods@.take(i as int + 1).last() == mods@[i as int]);
        }
        if m.operation == ModifierOperation::Override {
            let better = match best {
                None => true,
                Some((rank, _)) => m.priority.0 > rank,
            };
            if better {
                best = Some((m.priority.0, m.value));
            }
        }
        i = i + 1;
    }
    assert(mods@.take(mods@.len() as int) =~= mods@);
    best
}

/// Position of the first modifier of `mods` whose identity token is `id`.
fn find_token(mods: &Vec<AttributeModifier>, id: u128) -> (r: Option<usize>)
    ensures
        match r {
            Some(i) => token_position(mods@, id, 0) == i,
            None => token_position(mods@, id, 0) < 0,
        },
{
    let mut i: usize = 0;
    while i < mods.len()
        invariant
            i <= mods@.len(),
            token_position(mods@, id, 0) == token_position(mods@, id, i as int),
        decreases mods@.len() - i,
    {
        if mods[i].uuid == id {
            return Some(i);
        }
        i = i + 1;
    }
    None
}

/// Position of the first modifier of `mods` whose source is `src`.
fn find_source(mods: &Vec<AttributeModifier>, src: &String) -> (r: Option<usize>)
    ensures
        match r {
            Some(i) => source_position(mods@, src@, 0) == i,
            None => source_position(mods@, src@, 0) < 0,
        },
{
    let mut i: usize = 0;
    while i < mods.len()
        invariant
            i <= mods@.len(),
            source_position(mods@, src@, 0) == source_position(mods@, src@, i as int),
        decreases mods@.len() - i,
    {
        if mods[i].source_id == *src {
            return Some(i);
        }
        i = i + 1;
    }
    None
}

/// A named numeric quantity: a base value, a current value derived from it by
/// the modifiers, and the range the current value is clamped to.
#[derive(Debug)]
pub struct Attribute {
    base_value: i64,
    current_value: i64,
    pub min_value: i64,
    pub max_value: i64,
    /// When false, a negative derived value is raised to 0 before the range clamp.
    pub can_be_negative: bool,
    pub attribute_name: String,
    pub display_name: String,
    modifiers: Vec<AttributeModifier>,
    /// At most one modifier per source, kept in order of first insertion.
    unique_modifiers: Vec<AttributeModifier>,
}

impl Default for Attribute {
    fn default() -> (r: Self)
        ensures
            r.base_spec() == 0,
            r.current_spec() == 0,
            r.min_spec() == i64::MIN,
            r.max_spec() == i64::MAX,
            r.negative_allowed(),
            r.name_spec() == Seq::<char>::empty(),
            r.display_spec() == Seq::<char>::empty(),
            r.active_modifiers() == Seq::<AttributeModifier>::empty(),
            r.wf(),
    {
        let r = Attribute {
            base_value: 0,
            current_value: 0,
            min_value: i64::MIN,
            max_value: i64::MAX,
            can_be_negative: true,
            attribute_name: String::new(),
            display_name: String::new(),
            modifiers: Vec::new(),
            unique_modifiers: Vec::new(),
        };
        assert(r.active_modifiers() =~= Seq::<AttributeModifier>::empty());
        r
    }
}

impl Attribute {
    /// A default attribute named `name`.
    pub fn named(name: &str) -> (r: Self)
        ensures
            r.base_spec() == 0,
            r.current_spec() == 0,
            r.min_spec() == i64::MIN,
            r.max_spec() == i64::MAX,
            r.negative_allowed(),
            r.name_spec() == name@,
            r.display_spec() == Seq::<char>::empty(),
            r.active_modifiers() == Seq::<AttributeModifier>::empty(),
            r.wf(),
    {
        let mut r = Attribute::default();
        r.attribute_name = name.to_owned();
        r
    }

    pub closed spec fn base_spec(&self) -> int {
        self.base_value as int
    }

    pub closed spec fn current_spec(&self) -> int {
        self.current_value as int
    }

    pub closed spec fn min_spec(&self) -> int {
        self.min_value as int
    }

    pub closed spec fn max_spec(&self) -> int {
        self.max_value as int
    }

    pub closed spec fn negative_allowed(&self) -> bool {
        self.can_be_negative
    }

    pub closed spec fn name_spec(&self) -> Seq<char> {
        self.attribute_name@
    }

    pub closed spec fn display_spec(&self) -> Seq<char> {
        self.display_name@
    }

    /// The modifiers added by identity, in order of addition.
    pub closed spec fn listed_modifiers(&self) -> Seq<AttributeModifier> {
        self.modifiers@
    }

    /// The modifiers inserted by source.
    pub closed spec fn keyed_modifiers(&self) -> Seq<AttributeModifier> {
        self.unique_modifiers@
    }

    /// Every modifier that takes part in recalculation, in order.
    pub open spec fn active_modifiers(&self) -> Seq<AttributeModifier> {
        self.listed_modifiers() + self.keyed_modifiers()
    }

    pub open spec fn wf(&self) -> bool {
        sources_unique(self.keyed_modifiers())
    }

    /// The current value that recalculation gives.
    pub open spec fn derived(&self) -> int {
        derived_value(
            self.base_spec(),
            self.active_modifiers(),
            self.negative_allowed(),
            self.min_spec(),
            self.max_spec(),
        )
    }

    /// This attribute with `v`, clamped to the range, stored as current value.
    pub closed spec fn with_current(self, v: int) -> Attribute {
        Attribute { current_value: clamp(v, self.min_value as int, self.max_value as int) as i64, ..self }
    }

    /// This attribute with its derived value stored as current value.
    pub closed spec fn recalculated(self) -> Attribute {
        Attribute { current_value: self.derived() as i64, ..self }
    }

    pub closed spec fn with_base(self, v: i64) -> Attribute {
        Attribute { base_value: v, ..self }.recalculated()
    }

    /// Same base value, range, policy and names.
    pub open spec fn same_settings(&self, other: &Attribute) -> bool {
        &&& self.base_spec() == other.base_spec()
        &&& self.min_spec() == other.min_spec()
        &&& self.max_spec() == other.max_spec()
        &&& self.negative_allowed() == other.negative_allowed()
        &&& self.name_spec() == other.name_spec()
        &&& self.display_spec() == other.display_spec()
    }

    pub fn set_base_value(&mut self, v: i64)
        ensures
            *final(self) == old(self).with_base(v),
            final(self).base_spec() == v,
            final(self).current_spec() == final(self).derived(),
            final(self).listed_modifiers() == old(self).listed_modifiers(),
            final(self).keyed_modifiers() == old(self).keyed_modifiers(),
            final(self).min_spec() == old(self).min_spec(),
            final(self).max_spec() == old(self).max_spec(),
            final(self).negative_allowed() == old(self).negative_allowed(),
            final(self).name_spec() == old(self).name_spec(),
    {
        self.base_value = v;
        self.recalculate_current_value();
    }

    pub fn set_current_value(&mut self, current_value: i64)
        ensures
            *final(self) == old(self).with_current(current_value as int),
            final(self).current_spec() == clamp(
                current_value as int,
                old(self).min_spec(),
                old(self).max_spec(),
            ),
            final(self).same_settings(old(self)),
            final(self).listed_modifiers() == old(self).listed_modifiers(),
            final(self).keyed_modifiers() == old(self).keyed_modifiers(),
    {
        self.current_value = if current_value < self.min_value {
            self.min_value
        } else if current_value > self.max_value {
            self.max_value
        } else {
            current_value
        };
    }

    /// Sets the range of the current value, then recalculates.
    pub fn set_range(&mut self, min: i64, max: i64)
        ensures
            final(self).min_spec() == min,
            final(self).max_spec() == max,
            final(self).base_spec() == old(self).base_spec(),
            final(self).negative_allowed() == old(self).negative_allowed(),
            final(self).name_spec() == old(self).name_spec(),
            final(self).display_spec() == old(self).display_spec(),
            final(self).listed_modifiers() == old(self).listed_modifiers(),
            final(self).keyed_modifiers() == old(self).keyed_modifiers(),
            final(self).current_spec() == final(self).derived(),
    {
        self.min_value = min;
        self.max_value = max;
        self.recalculate_current_value();
    }

    /// Sets whether the current value may be negative, then recalculates.
    pub fn set_can_be_negative(&mut self, can_be_negative: bool)
        ensures
            final(self).negative_allowed() == can_be_negative,
            final(self).base_spec() == old(self).base_spec(),
            final(self).min_spec() == old(self).min_spec(),
            final(self).max_spec() == old(self).max_spec(),
            final(self).name_spec() == old(self).name_spec(),
            final(self).display_spec() == old(self).display_spec(),
            final(self).listed_modifiers() == old(self).listed_modifiers(),
            final(self).keyed_modifiers() == old(self).keyed_modifiers(),
            final(self).current_spec() == final(self).derived(),
    {
        self.can_be_negative = can_be_negative;
        self.recalculate_current_value();
    }

    pub fn name(&self) -> (r: &str)
        ensures
            r@ == self.name_spec(),
    {
        self.attribute_name.as_str()
    }

    pub fn get_base_value(&self) -> (r: i64)
        ensures
            r == self.base_spec(),
    {
        self.base_value
    }

    pub fn get_current_value(&self) -> (r: i64)
        ensures
            r == self.current_spec(),
    {
        self.current_value
    }

    /// Appends `modifier` unless one with the same identity token is listed;
    /// recalculates when it was appended.
    pub fn add_modifier(&mut self, modifier: &AttributeModifier)
        ensures
            token_position(old(self).listed_modifiers(), modifier.uuid, 0) >= 0 ==> *final(self)
                == *old(self),
            token_position(old(self).listed_modifiers(), modifier.uuid, 0) < 0 ==> {
                &&& final(self).listed_modifiers() == old(self).listed_modifiers().push(*modifier)
                &&& final(self).keyed_modifiers() == old(self).keyed_modifiers()
                &&& final(self).same_settings(old(self))
                &&& final(self).current_spec() == final(self).derived()
            },
    {
        if find_token(&self.modifiers, modifier.uuid).is_none() {
            self.modifiers.push(modifier.duplicate());
            self.recalculate_current_value();
        }
    }

    /// Puts `modifier` in place of the keyed modifier of the same source, or
    /// adds it; then recalculates.
    pub fn insert_modifier(&mut self, modifier: &AttributeModifier)
        ensures
            final(self).keyed_modifiers() == upsert_by_source(old(self).keyed_modifiers(), *modifier),
            final(self).listed_modifiers() == old(self).listed_modifiers(),
            final(self).same_settings(old(self)),
            final(self).current_spec() == final(self).derived(),
            old(self).wf() ==> final(self).wf(),
    {
        let ghost before = self.unique_modifiers@;
        match find_source(&self.unique_modifiers, &modifier.source_id) {
            Some(i) => {
                proof {
                    lemma_position_found(before, modifier.source_id@, 0);
                }
                self.unique_modifiers.set(i, modifier.duplicate());
                assert(forall|j: int|
                    0 <= j < before.len() ==> #[trigger] self.unique_modifiers@[j].source_id@
                        == before[j].source_id@);
            },
            None => {
                proof {
                    lemma_source_absent(before, modifier.source_id@, 0);
                }
                self.unique_modifiers.push(modifier.duplicate());
                assert(forall|j: int|
                    0 <= j < before.len() ==> #[trigger] self.unique_modifiers@[j] == before[j]);
            },
        }
        self.recalculate_current_value();
    }

    /// Removes the first listed modifier with the identity token of `modifier`,
    /// if there is one, and then recalculates.
    pub fn remove_modifier(&mut self, modifier: &AttributeModifier)
        ensures
            token_position(old(self).listed_modifiers(), modifier.uuid, 0) < 0 ==> *final(self)
                == *old(self),
            token_position(old(self).listed_modifiers(), modifier.uuid, 0) >= 0 ==> {
                &&& final(self).listed_modifiers() == old(self).listed_modifiers().remove(
                    token_position(old(self).listed_modifiers(), modifier.uuid, 0),
                )
                &&& final(self).keyed_modifiers() == old(self).keyed_modifiers()
                &&& final(self).same_settings(old(self))
                &&& final(self).current_spec() == final(self).derived()
            },
    {
        if let Some(i) = find_token(&self.modifiers, modifier.uuid) {
            proof {
                lemma_token_found(self.modifiers@, modifier.uuid, 0);
            }
            self.modifiers.remove(i);
            self.recalculate_current_value();
        }
    }

    /// Derives the current value from the base value and the modifiers: every
    /// Absolute amount, then every Percentage amount of the base, unless the
    /// winning Override replaces them; then the negative-value policy and the
    /// range clamp.
    pub fn recalculate_current_value(&mut self)
        ensures
            *final(self) == old(self).recalculated(),
            final(self).current_spec() == old(self).derived(),
            final(self).same_settings(old(self)),
            final(self).listed_modifiers() == old(self).listed_modifiers(),
            final(self).keyed_modifiers() == old(self).keyed_modifiers(),
    {
        let base = self.base_value;
        let listed = &self.modifiers;
        let keyed = &self.unique_modifiers;
        let absolute_listed = accumulate_kind(base, listed, ModifierOperation::Absolute, base);
        let absolute_all = accumulate_kind(base, keyed, ModifierOperation::Absolute, absolute_listed);
        let percentage_listed = accumulate_kind(
            base,
            listed,
            ModifierOperation::Percentage,
            absolute_all,
        );
        let percentage_all = accumulate_kind(
            base,
            keyed,
            ModifierOperation::Percentage,
            percentage_listed,
        );
        let winner_listed = pick_override(listed, None, Ghost(None));
        let winner_all = pick_override(keyed, winner_listed, Ghost(top_override(listed@, None)));
        proof {
            lemma_accumulate_concat(
                base as int,
                listed@,
                keyed@,
                ModifierOperation::Absolute,
                base as int,
            );
            lemma_accumulate_concat(
                base as int,
                listed@,
                keyed@,
                ModifierOperation::Percentage,
                absolute_all as int,
            );
            lemma_top_override_concat(listed@, keyed@, None);
        }
        let combined = match winner_all {
            Some((_, v)) => v,
            None => percentage_all,
        };
        let policed = if !self.can_be_negative && combined < 0 {
            0
        } else {
            combined
        };
        self.set_current_value(policed);
    }
}

} // verus!

verus! {

/// Every value the accessors give fits the field it comes from.
pub broadcast proof fn lemma_attribute_ranges(a: Attribute)
    ensures
        i64::MIN <= #[trigger] a.current_spec() <= i64::MAX,
        i64::MIN <= a.base_spec() <= i64::MAX,
        i64::MIN <= a.min_spec() <= i64::MAX,
        i64::MIN <= a.max_spec() <= i64::MAX,
{
}

/// What storing a current value gives: the value clamped to the range, all
/// else kept.
pub broadcast proof fn lemma_with_current(a: Attribute, v: int)
    ensures
        #![trigger a.with_current(v)]
        a.with_current(v).current_spec() == clamp(v, a.min_spec(), a.max_spec()),
        a.with_current(v).same_settings(&a),
        a.with_current(v).listed_modifiers() == a.listed_modifiers(),
        a.with_current(v).keyed_modifiers() == a.keyed_modifiers(),
{
}

/// What recalculation gives: the derived value as current value, all else kept.
pub broadcast proof fn lemma_recalculated(a: Attribute)
    ensures
        #![trigger a.recalculated()]
        a.recalculated().current_spec() == a.derived(),
        a.recalculated().same_settings(&a),
        a.recalculated().listed_modifiers() == a.listed_modifiers(),
        a.recalculated().keyed_modifiers() == a.keyed_modifiers(),
{
}

/// What setting the base value gives: the new base, the value derived from it
/// as current value, all else kept.
pub broadcast proof fn lemma_with_base(a: Attribute, v: i64)
    ensures
        #![trigger a.with_base(v)]
        a.with_base(v).base_spec() == v,
        a.with_base(v).current_spec() == derived_value(
            v as int,
            a.active_modifiers(),
            a.negative_allowed(),
            a.min_spec(),
            a.max_spec(),
        ),
        a.with_base(v).current_spec() == a.with_base(v).derived(),
        a.with_base(v).min_spec() == a.min_spec(),
        a.with_base(v).max_spec() == a.max_spec(),
        a.with_base(v).negative_allowed() == a.negative_allowed(),
        a.with_base(v).name_spec() == a.name_spec(),
        a.with_base(v).display_spec() == a.display_spec(),
        a.with_base(v).listed_modifiers() == a.listed_modifiers(),
        a.with_base(v).keyed_modifiers() == a.keyed_modifiers(),
{
}

/// The facts above, for callers to bring in with `broadcast use`.
pub broadcast group attribute_state {
    lemma_attribute_ranges,
    lemma_with_current,
    lemma_recalculated,
    lemma_with_base,
}

/// Setting the same base value twice in a row leaves the attribute as setting
/// it once does.
pub proof fn lemma_set_base_value_idempotent(a: Attribute, v: i64)
    ensures
        a.with_base(v).with_base(v) == a.with_base(v),
{
}

/// With one Absolute and one Percentage modifier, the order in which they
/// were added does not change the result: base, plus the absolute value,
/// plus the percentage of the base.
pub proof fn lemma_absolute_percentage_order(
    base: i64,
    absolute: AttributeModifier,
    percentage: AttributeModifier,
)
    requires
        absolute.operation == ModifierOperation::Absolute,
        percentage.operation == ModifierOperation::Percentage,
    ensures
        combined_value(base as int, seq![absolute, percentage]) == combined_value(
            base as int,
            seq![percentage, absolute],
        ),
        combined_value(base as int, seq![absolute, percentage]) == saturate(
            saturate(base + absolute.value) + percent_of(base as int, percentage.value as int),
        ),
{
    let s1 = seq![absolute, percentage];
    let s2 = seq![percentage, absolute];
    assert(s1.drop_last() =~= seq![absolute]);
    assert(s2.drop_last() =~= seq![percentage]);
    assert(seq![absolute].drop_last() =~= Seq::<AttributeModifier>::empty());
    assert(seq![percentage].drop_last() =~= Seq::<AttributeModifier>::empty());
    reveal_with_fuel(accumulate, 3);
    reveal_with_fuel(top_override, 3);
}

/// The winner, when there is one, is an Override modifier of the list.
proof fn lemma_top_member(mods: Seq<AttributeModifier>)
    ensures
        top_override(mods, None) is Some ==> exists|k: int|
            0 <= k < mods.len() && mods[k] == top_override(mods, None)->Some_0
                && #[trigger] mods[k].operation == ModifierOperation::Override,
    decreases mods.len(),
{
    if mods.len() > 0 {
        let prev = mods.drop_last();
        lemma_top_member(prev);
        if top_override(mods, None) is Some && top_override(mods, None) == top_override(prev, None) {
            let k = choose|k: int|
                0 <= k < prev.len() && prev[k] == top_override(prev, None)->Some_0
                    && #[trigger] prev[k].operation == ModifierOperation::Override;
            assert(mods[k] == prev[k]);
        }
    }
}

/// The Override modifier whose priority is above that of every other
/// Override modifier wins, wherever it stands in the list, and its value is
/// the combined value.
pub proof fn lemma_highest_override_wins(base: int, mods: Seq<AttributeModifier>, i: int)
    requires
        0 <= i < mods.len(),
        mods[i].operation == ModifierOperation::Override,
        forall|j: int|
            0 <= j < mods.len() && j != i && #[trigger] mods[j].operation
                == ModifierOperation::Override ==> mods[j].priority.0 < mods[i].priority.0,
    ensures
        top_override(mods, None) == Some(mods[i]),
        combined_value(base, mods) == mods[i].value,
    decreases mods.len(),
{
    let prev = mods.drop_last();
    if i == mods.len() - 1 {
        lemma_top_member(prev);
        if top_override(prev, None) is Some {
            let k = choose|k: int|
                0 <= k < prev.len() && prev[k] == top_override(prev, None)->Some_0
                    && #[trigger] prev[k].operation == ModifierOperation::Override;
            assert(mods[k] == prev[k]);
        }
    } else {
        assert forall|j: int|
            0 <= j < prev.len() && j != i && #[trigger] prev[j].operation
                == ModifierOperation::Override implies prev[j].priority.0 < prev[i].priority.0 by {
            assert(prev[j] == mods[j]);
        }
        lemma_highest_override_wins(base, prev, i);
        if mods.last().operation == ModifierOperation::Override {
            assert(mods[mods.len() - 1].operation == ModifierOperation::Override);
        }
    }
}

/// With any Absolute and Percentage modifiers and two Override modifiers,
/// wherever they stand, the one of higher priority gives the combined value;
/// once it is removed, the other one does.
pub proof fn lemma_override_precedence(base: int, mods: Seq<AttributeModifier>, low: int, high: int)
    requires
        0 <= low < mods.len(),
        0 <= high < mods.len(),
        low != high,
        mods[low].operation == ModifierOperation::Override,
        mods[high].operation == ModifierOperation::Override,
        mods[low].priority.0 < mods[high].priority.0,
        forall|j: int|
            0 <= j < mods.len() && j != low && j != high ==> #[trigger] mods[j].operation
                != ModifierOperation::Override,
    ensures
        combined_value(base, mods) == mods[high].value,
        combined_value(base, mods.remove(high)) == mods[low].value,
{
    lemma_highest_override_wins(base, mods, high);
    let rest = mods.remove(high);
    let l = if low < high {
        low
    } else {
        low - 1
    };
    assert(rest[l] == mods[low]);
    assert forall|j: int|
        0 <= j < rest.len() && j != l && #[trigger] rest[j].operation
            == ModifierOperation::Override implies rest[j].priority.0 < rest[l].priority.0 by {
        if j < high {
            assert(rest[j] == mods[j]);
        } else {
            assert(rest[j] == mods[j + 1]);
        }
    }
    lemma_highest_override_wins(base, rest, l);
}

proof fn lemma_token_at_end(s: Seq<AttributeModifier>, m: AttributeModifier, k: int)
    requires
        0 <= k <= s.len(),
        forall|j: int| 0 <= j < s.len() ==> #[trigger] s[j].uuid != m.uuid,
    ensures
        token_position(s.push(m), m.uuid, k) == s.len(),
    decreases s.len() - k,
{
    if k < s.len() {
        assert(s.push(m)[k] == s[k]);
        lemma_token_at_end(s, m, k + 1);
    }
}

/// Adding a modifier that is not listed yet and then removing it gives back
/// the modifier list and the current value as they were, when the current
/// value was the derived one.
pub proof fn lemma_add_then_remove_restores(
    a: Attribute,
    b: Attribute,
    c: Attribute,
    m: AttributeModifier,
)
    requires
        a.current_spec() == a.derived(),
        token_position(a.listed_modifiers(), m.uuid, 0) < 0,
        b.listed_modifiers() == a.listed_modifiers().push(m),
        b.keyed_modifiers() == a.keyed_modifiers(),
        b.same_settings(&a),
        b.current_spec() == b.derived(),
        c.listed_modifiers() == b.listed_modifiers().remove(
            token_position(b.listed_modifiers(), m.uuid, 0),
        ),
        c.keyed_modifiers() == b.keyed_modifiers(),
        c.same_settings(&b),
        c.current_spec() == c.derived(),
    ensures
        c.listed_modifiers() == a.listed_modifiers(),
        c.current_spec() == a.current_spec(),
{
    let s = a.listed_modifiers();
    lemma_token_absent(s, m.uuid, 0);
    let n = s.len() as int;
    lemma_token_at_end(s, m, 0);
    assert(s.push(m).remove(n) =~= s);
}

/// When negative values are not allowed, the derived value is never negative
/// (unless the range allows no value at or above 0).
pub proof fn lemma_negative_policy(base: int, mods: Seq<AttributeModifier>, min: int, max: int)
    requires
        0 <= max,
    ensures
        derived_value(base, mods, false, min, max) >= 0,
{
}

/// The derived value lies in the attribute's range.
pub proof fn lemma_range_clamp(
    base: int,
    mods: Seq<AttributeModifier>,
    can_be_negative: bool,
    min: int,
    max: int,
)
    requires
        min <= max,
    ensures
        min <= derived_value(base, mods, can_be_negative, min, max) <= max,
{
}

} // verus!
