use vstd::prelude::*;

use rand::Rng;

verus! {

/// A named half-open range of numbers `[start, end)` to draw from; the name
/// picks the generator.
pub struct NumberRange {
    start: usize,
    end: usize,
    pub name: String,
}

impl NumberRange {
    pub closed spec fn start_spec(&self) -> usize {
        self.start
    }

    pub closed spec fn end_spec(&self) -> usize {
        self.end
    }

    pub closed spec fn name_spec(&self) -> Seq<char> {
        self.name@
    }

    pub open spec fn wf(&self) -> bool {
        self.start_spec() <= self.end_spec()
    }

    /// The range `[start, end)` under `name`; an `end` below `start` pulls
    /// the start down to it.
    pub fn new(name: &str, start: usize, end: usize) -> (r: Self)
        ensures
            r.start_spec() == if end < start {
                end
            } else {
                start
            },
            r.end_spec() == end,
            r.name_spec() == name@,
            r.wf(),
    {
        let mut range = NumberRange { start, end: start, name: name.to_owned() };
        range.set_end(end);
        range
    }

    pub fn start(&self) -> (r: usize)
        ensures
            r == self.start_spec(),
    {
        self.start
    }

    pub fn end(&self) -> (r: usize)
        ensures
            r == self.end_spec(),
    {
        self.end
    }

    /// Sets the end; a start above it is pulled down to it.
    pub fn set_end(&mut self, end: usize)
        ensures
            final(self).end_spec() == end,
            final(self).start_spec() == if end < old(self).start_spec() {
                end
            } else {
                old(self).start_spec()
            },
            final(self).name_spec() == old(self).name_spec(),
            final(self).wf(),
    {
        if end < self.start {
            self.start = end;
        }
        self.end = end;
    }

    /// Sets the start; an end below it is pushed up to it.
    pub fn set_start(&mut self, start: usize)
        ensures
            final(self).start_spec() == start,
            final(self).end_spec() == if start > old(self).end_spec() {
                start
            } else {
                old(self).end_spec()
            },
            final(self).name_spec() == old(self).name_spec(),
            final(self).wf(),
    {
        if start > self.end {
            self.end = start;
        }
        self.start = start;
    }
}

/// A source of numbers drawn from ranges.
pub trait NumberGenerator {
    fn generate(&mut self, range: &NumberRange) -> (r: usize)
        requires
            range.start_spec() < range.end_spec(),
        ensures
            range.start_spec() <= r < range.end_spec(),
    ;
}

#[verifier::external_type_specification]
#[verifier::external_body]
pub struct ExThreadRng(rand::rngs::ThreadRng);

/// Relies on rand::rng: the thread-local generator.
#[verifier::external_body]
fn thread_generator() -> rand::rngs::ThreadRng {
    rand::rng()
}

/// Relies on rand::Rng::random_range on `start..end`: a value in the range,
/// which must not be empty (the call panics on an empty one).
#[verifier::external_body]
fn draw_in(rng: &mut rand::rngs::ThreadRng, start: usize, end: usize) -> (r: usize)
    requires
        start < end,
    ensures
        start <= r < end,
{
    rng.random_range(start..end)
}

/// Draws uniformly with the thread-local random number generator.
pub struct RandNumberGenerator(rand::rngs::ThreadRng);

impl RandNumberGenerator {
    pub fn new() -> Self {
        RandNumberGenerator(thread_generator())
    }
}

impl Default for RandNumberGenerator {
    fn default() -> Self {
        Self::new()
    }
}

impl NumberGenerator for RandNumberGenerator {
    fn generate(&mut self, range: &NumberRange) -> (r: usize) {
        draw_in(&mut self.0, range.start(), range.end())
    }
}

/// The generator registered last under `name` among `entries`.
pub open spec fn generator_position<G>(entries: Seq<(String, G)>, name: Seq<char>) -> int
    decreases entries.len(),
{
    if entries.len() == 0 {
        -1
    } else if entries.last().0@ == name {
        entries.len() - 1
    } else {
        generator_position(entries.drop_last(), name)
    }
}

/// Generators by name; a later registration under a name replaces the
/// earlier one.
pub struct NumberGeneratorContainer<G> {
    generators: Vec<(String, G)>,
}

impl<G: NumberGenerator> NumberGeneratorContainer<G> {
    /// Whether a generator is registered under `name`.
    pub closed spec fn serves(&self, name: Seq<char>) -> bool {
        generator_position(self.generators@, name) >= 0
    }

    pub fn empty() -> (r: Self)
        ensures
            forall|n: Seq<char>| !#[trigger] r.serves(n),
    {
        NumberGeneratorContainer { generators: Vec::new() }
    }

    pub fn register(&mut self, name: &str, value: G)
        ensures
            forall|n: Seq<char>| #[trigger] final(self).serves(n) == (n == name@ || old(self).serves(n)),
    {
        self.generators.push((name.to_owned(), value));
        assert forall|n: Seq<char>| #[trigger] self.serves(n) == (n == name@ || old(self).serves(n)) by {
            assert(self.generators@.drop_last() =~= old(self).generators@);
        }
    }

    /// A number of `range` from the generator its name picks, or None when no
    /// generator is registered under that name.
    pub fn generate(&mut self, range: &NumberRange) -> (r: Option<usize>)
        requires
            range.start_spec() < range.end_spec() || !old(self).serves(range.name_spec()),
        ensures
            old(self).serves(range.name_spec()) <==> r is Some,
            forall|n: Seq<char>| #[trigger] final(self).serves(n) == old(self).serves(n),
            match r {
                Some(v) => range.start_spec() <= v < range.end_spec(),
                None => true,
            },
    {
        let mut i: usize = self.generators.len();
        let ghost entries = self.generators@;
        assert(entries.take(i as int) =~= entries);
        while i > 0
            invariant
                i <= entries.len(),
                self.generators@ == entries,
                entries == old(self).generators@,
                range.start_spec() < range.end_spec() || generator_position(
                    entries,
                    range.name_spec(),
                ) < 0,
                generator_position(entries, range.name_spec()) == generator_position(
                    entries.take(i as int),
                    range.name_spec(),
                ),
            decreases i,
        {
            proof {
                assert(entries.take(i as int).drop_last() =~= entries.take(i as int - 1));
                assert(entries.take(i as int).last() == entries[i - 1]);
            }
            if self.generators[i - 1].0 == range.name {
                let (key, mut generator) = self.generators.remove(i - 1);
                let v = generator.generate(range);
                self.generators.insert(i - 1, (key, generator));
                assert(self.generators@ =~= entries.update(i - 1, (key, generator)));
                assert(key == entries[i - 1].0);
                assert forall|k: int| 0 <= k < entries.len() implies #[trigger] entries[k].0@
                    == self.generators@[k].0@ by {
                    if k == i - 1 {
                        assert(self.generators@[k].0 == key);
                    }
                }
                assert forall|n: Seq<char>| #[trigger] self.serves(n) == old(self).serves(n) by {
                    lemma_position_same_names(entries, self.generators@, n);
                }
                return Some(v);
            }
            i = i - 1;
        }
        None
    }
}

/// Two registries whose entries carry the same names at the same places
/// serve the same names.
proof fn lemma_position_same_names<G>(a: Seq<(String, G)>, b: Seq<(String, G)>, n: Seq<char>)
    requires
        a.len() == b.len(),
        forall|k: int| 0 <= k < a.len() ==> #[trigger] a[k].0@ == b[k].0@,
    ensures
        generator_position(a, n) == generator_position(b, n),
    decreases a.len(),
{
    if a.len() > 0 {
        assert forall|k: int| 0 <= k < a.drop_last().len() implies #[trigger] a.drop_last()[k].0@
            == b.drop_last()[k].0@ by {
            assert(a[k].0@ == b[k].0@);
        }
        lemma_position_same_names(a.drop_last(), b.drop_last(), n);
    }
}

impl NumberGeneratorContainer<RandNumberGenerator> {
    /// A container with the thread-local random generator under "rand".
    pub fn new() -> (r: Self)
        ensures
            forall|n: Seq<char>| #[trigger] r.serves(n) == (n == "rand"@),
    {
        let mut empty = Self::empty();
        empty.register("rand", RandNumberGenerator::new());
        empty
    }
}

impl Default for NumberGeneratorContainer<RandNumberGenerator> {
    fn default() -> (r: Self)
        ensures
            forall|n: Seq<char>| #[trigger] r.serves(n) == (n == "rand"@),
    {
        Self::new()
    }
}

} // verus!
