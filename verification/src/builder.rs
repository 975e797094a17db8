use crate::context::{Color, Context, Direction, Shift};
use vstd::prelude::*;

verus! {

/// Number of distinct slot contexts: three shape colors, two directions and
/// two shifts.
pub const CONTEXT_COUNT: usize = 12;

pub open spec fn color_index(c: Color) -> int {
    match c {
        Color::Gray => 0,
        Color::Yellow => 1,
        Color::Green => 2,
    }
}

pub open spec fn direction_index(d: Direction) -> int {
    match d {
        Direction::LookingLeft => 0,
        Direction::LookingRight => 1,
    }
}

pub open spec fn shift_index(s: Shift) -> int {
    match s {
        Shift::HuggingLeft => 0,
        Shift::HuggingRight => 1,
    }
}

/// Position of a context in the fixed slot table.
pub open spec fn context_index_spec(c: Context) -> int {
    color_index(c.body) * 4 + direction_index(c.direction) * 2 + shift_index(c.shift)
}

/// Distinct contexts occupy distinct table positions.
pub proof fn lemma_context_index_injective(a: Context, b: Context)
    requires
        context_index_spec(a) == context_index_spec(b),
    ensures
        a == b,
{
}

fn context_index(c: &Context) -> (r: usize)
    ensures
        r == context_index_spec(*c),
        r < CONTEXT_COUNT,
{
    let ci: usize = match c.body {
        Color::Gray => 0,
        Color::Yellow => 1,
        Color::Green => 2,
    };
    let di: usize = match c.direction {
        Direction::LookingLeft => 0,
        Direction::LookingRight => 1,
    };
    let si: usize = match c.shift {
        Shift::HuggingLeft => 0,
        Shift::HuggingRight => 1,
    };
    ci * 4 + di * 2 + si
}

/// Ghost mirror of one row assembly: the words held for the four shape rows,
/// as character sequences.
#[verifier::ext_equal]
pub ghost struct BodyModel {
    pub head: Option<Seq<char>>,
    pub eyes: Option<Seq<char>>,
    pub body: Option<Seq<char>>,
    pub legs: Option<Seq<char>>,
}

/// A row assembly with no word set yet.
pub open spec fn body_model_empty() -> BodyModel {
    BodyModel { head: None, eyes: None, body: None, legs: None }
}

/// A row assembly is full when all four shape rows hold a word.
pub open spec fn body_full(b: BodyModel) -> bool {
    b.head is Some && b.eyes is Some && b.body is Some && b.legs is Some
}

/// The four shape rows a classified word can be routed into.
#[derive(Copy, Clone, PartialEq, Eq, Structural, Debug)]
pub enum Part {
    Head,
    Eyes,
    Body,
    Legs,
}

/// Writes word `w` into the given row of an assembly unless that row is
/// already set: the first writer wins.
pub open spec fn set_part(b: BodyModel, p: Part, w: Seq<char>) -> BodyModel {
    match p {
        Part::Head => if b.head is Some {
            b
        } else {
            BodyModel { head: Some(w), ..b }
        },
        Part::Eyes => if b.eyes is Some {
            b
        } else {
            BodyModel { eyes: Some(w), ..b }
        },
        Part::Body => if b.body is Some {
            b
        } else {
            BodyModel { body: Some(w), ..b }
        },
        Part::Legs => if b.legs is Some {
            b
        } else {
            BodyModel { legs: Some(w), ..b }
        },
    }
}

/// First-writer-wins law: a slot row that already holds a word is never
/// replaced by a later write, whatever the later word is.
pub proof fn lemma_first_writer_wins(b: BodyModel, p: Part, w: Seq<char>)
    ensures
        b.head is Some ==> set_part(b, p, w).head == b.head,
        b.eyes is Some ==> set_part(b, p, w).eyes == b.eyes,
        b.body is Some ==> set_part(b, p, w).body == b.body,
        b.legs is Some ==> set_part(b, p, w).legs == b.legs,
{
}

/// Holds at most one word for each of the four shape rows of one context.
pub struct SusBuilderBody {
    pub head: Option<String>,
    pub eyes: Option<String>,
    pub body: Option<String>,
    pub legs: Option<String>,
}

impl View for SusBuilderBody {
    type V = BodyModel;

    open spec fn view(&self) -> BodyModel {
        BodyModel {
            head: self.head.deep_view(),
            eyes: self.eyes.deep_view(),
            body: self.body.deep_view(),
            legs: self.legs.deep_view(),
        }
    }
}

impl SusBuilderBody {
    /// A fresh assembly with no word set.
    pub fn new() -> (r: SusBuilderBody)
        ensures
            r@ == body_model_empty(),
    {
        SusBuilderBody { head: None, eyes: None, body: None, legs: None }
    }

    /// True exactly when all four shape rows hold a word.
    pub fn is_full(&self) -> (r: bool)
        ensures
            r == body_full(self@),
    {
        self.head.is_some() && self.eyes.is_some() && self.body.is_some() && self.legs.is_some()
    }
}

impl Default for SusBuilderBody {
    fn default() -> (r: SusBuilderBody)
        ensures
            r@ == body_model_empty(),
    {
        SusBuilderBody::new()
    }
}

/// Ghost mirror of one per-background assembly: the shared background word,
/// the recorded ready context, and the word rows of every context.
#[verifier::ext_equal]
pub ghost struct BuilderModel {
    pub empty: Option<Seq<char>>,
    pub ready: Option<Context>,
    pub slots: Map<Context, BodyModel>,
}

/// A per-background assembly with nothing accumulated yet.
pub open spec fn builder_model_empty() -> BuilderModel {
    BuilderModel {
        empty: None,
        ready: None,
        slots: Map::new(|c: Context| true, |c: Context| body_model_empty()),
    }
}

/// An assembly is full (ready) when the background word is set and a ready
/// context has been recorded.
pub open spec fn builder_full(m: BuilderModel) -> bool {
    m.empty is Some && m.ready is Some
}

/// Routes word `w` into row `p` of context `c`: the slot keeps its first
/// word, and the ready context is recorded the first time some context
/// becomes full, never to change afterward.
pub open spec fn builder_fill(m: BuilderModel, c: Context, p: Part, w: Seq<char>) -> BuilderModel {
    let nb = set_part(m.slots[c], p, w);
    BuilderModel {
        empty: m.empty,
        ready: if m.ready is Some {
            m.ready
        } else if body_full(nb) {
            Some(c)
        } else {
            None
        },
        slots: m.slots.insert(c, nb),
    }
}

/// Sets the shared background word unless one is already set.
pub open spec fn builder_fill_empty(m: BuilderModel, w: Seq<char>) -> BuilderModel {
    if m.empty is Some {
        m
    } else {
        BuilderModel { empty: Some(w), ..m }
    }
}

/// Idempotence law: routing the same word into the same context row twice
/// leaves the assembly exactly as after the first time.
pub proof fn lemma_fill_idempotent(m: BuilderModel, c: Context, p: Part, w: Seq<char>)
    ensures
        builder_fill(builder_fill(m, c, p, w), c, p, w) == builder_fill(m, c, p, w),
{
    let m1 = builder_fill(m, c, p, w);
    assert(builder_fill(m1, c, p, w) =~~= m1);
}

/// The six rows of a finished board, in order: background, head, eyes,
/// body, legs, and the background again.
pub open spec fn board_model(m: BuilderModel) -> Seq<Seq<char>>
    recommends
        builder_full(m),
{
    let b = m.slots[m.ready.unwrap()];
    seq![
        m.empty.unwrap(),
        b.head.unwrap(),
        b.eyes.unwrap(),
        b.body.unwrap(),
        b.legs.unwrap(),
        m.empty.unwrap(),
    ]
}

/// Accumulates, for one background color, the shared background word and the
/// per-context row assemblies, and records the first context to become full.
pub struct SusBuilder {
    pub empty: Option<String>,
    pub body_ready: Option<Context>,
    pub body: Vec<SusBuilderBody>,
}

impl View for SusBuilder {
    type V = BuilderModel;

    open spec fn view(&self) -> BuilderModel {
        BuilderModel {
            empty: self.empty.deep_view(),
            ready: self.body_ready,
            slots: Map::new(
                |c: Context| true,
                |c: Context| self.body@[context_index_spec(c)]@,
            ),
        }
    }
}

impl SusBuilder {
    /// Structural invariant: the slot table covers every context, and a
    /// recorded ready context always points at a full assembly.
    pub open spec fn wf(self) -> bool {
        &&& self.body@.len() == CONTEXT_COUNT
        &&& match self.body_ready {
            Some(c) => body_full(self@.slots[c]),
            None => true,
        }
    }

    /// A fresh assembly for one background color.
    pub fn new() -> (r: SusBuilder)
        ensures
            r.wf(),
            r@ == builder_model_empty(),
    {
        let mut body: Vec<SusBuilderBody> = Vec::new();
        let mut i: usize = 0;
        while i < CONTEXT_COUNT
            invariant
                i <= CONTEXT_COUNT,
                body@.len() == i,
                forall|k: int| 0 <= k < i ==> body@[k]@ == body_model_empty(),
            decreases CONTEXT_COUNT - i,
        {
            body.push(SusBuilderBody::new());
            i += 1;
        }
        let r = SusBuilder { empty: None, body_ready: None, body };
        proof {
            assert(r@.slots =~= builder_model_empty().slots);
            assert(r@ =~~= builder_model_empty());
        }
        r
    }

    /// Routes a word into the head row of the given context.
    pub fn fill_head(&mut self, context: Context, value: &str)
        requires
            old(self).wf(),
        ensures
            final(self).wf(),
            final(self)@ == builder_fill(old(self)@, context, Part::Head, value@),
    {
        let i = context_index(&context);
        if self.body[i].head.is_none() {
            self.body[i].head = Some(value.to_owned());
        }
        if self.body[i].is_full() && self.body_ready.is_none() {
            self.body_ready = Some(context);
        }
        proof {
            self.lemma_fill_post(*old(self), context, Part::Head, value@);
        }
    }

    /// Routes a word into the eyes row of the given context.
    pub fn fill_eyes(&mut self, context: Context, value: &str)
        requires
            old(self).wf(),
        ensures
            final(self).wf(),
            final(self)@ == builder_fill(old(self)@, context, Part::Eyes, value@),
    {
        let i = context_index(&context);
        if self.body[i].eyes.is_none() {
            self.body[i].eyes = Some(value.to_owned());
        }
        if self.body[i].is_full() && self.body_ready.is_none() {
            self.body_ready = Some(context);
        }
        proof {
            self.lemma_fill_post(*old(self), context, Part::Eyes, value@);
        }
    }

    /// Routes a word into the body row of the given context.
    pub fn fill_body(&mut self, context: Context, value: &str)
        requires
            old(self).wf(),
        ensures
            final(self).wf(),
            final(self)@ == builder_fill(old(self)@, context, Part::Body, value@),
    {
        let i = context_index(&context);
        if self.body[i].body.is_none() {
            self.body[i].body = Some(value.to_owned());
        }
        if self.body[i].is_full() && self.body_ready.is_none() {
            self.body_ready = Some(context);
        }
        proof {
            self.lemma_fill_post(*old(self), context, Part::Body, value@);
        }
    }

    /// Routes a word into the legs row of the given context.
    pub fn fill_legs(&mut self, context: Context, value: &str)
        requires
            old(self).wf(),
        ensures
            final(self).wf(),
            final(self)@ == builder_fill(old(self)@, context, Part::Legs, value@),
    {
        let i = context_index(&context);
        if self.body[i].legs.is_none() {
            self.body[i].legs = Some(value.to_owned());
        }
        if self.body[i].is_full() && self.body_ready.is_none() {
            self.body_ready = Some(context);
        }
        proof {
            self.lemma_fill_post(*old(self), context, Part::Legs, value@);
        }
    }

    /// Common reasoning for the four fill methods: once the touched table
    /// entry matches the model transition, so does the whole assembly.
    proof fn lemma_fill_post(&self, prev: SusBuilder, context: Context, p: Part, w: Seq<char>)
        requires
            prev.wf(),
            self.body@.len() == CONTEXT_COUNT,
            self.empty == prev.empty,
            forall|k: int|
                0 <= k < CONTEXT_COUNT && k != context_index_spec(context)
                    ==> self.body@[k] == prev.body@[k],
            self.body@[context_index_spec(context)]@ == set_part(
                prev@.slots[context],
                p,
                w,
            ),
            self.body_ready == (if prev.body_ready is Some {
                prev.body_ready
            } else if body_full(set_part(prev@.slots[context], p, w)) {
                Some(context)
            } else {
                None::<Context>
            }),
        ensures
            self.wf(),
            self@ == builder_fill(prev@, context, p, w),
    {
        let target = builder_fill(prev@, context, p, w);
        assert forall|c2: Context| self@.slots[c2] == target.slots[c2] by {
            if c2 != context {
                if context_index_spec(c2) == context_index_spec(context) {
                    lemma_context_index_injective(c2, context);
                }
                assert(self.body@[context_index_spec(c2)] == prev.body@[context_index_spec(
                    c2,
                )]);
            }
        }
        assert(self@.slots =~= target.slots);
        assert(self@ =~~= target);
        if self.body_ready is Some {
            let c0 = self.body_ready.unwrap();
            if prev.body_ready is Some {
                assert(body_full(prev@.slots[c0]));
                if c0 == context {
                    assert(self@.slots[c0] == set_part(prev@.slots[c0], p, w));
                }
            }
            assert(body_full(self@.slots[c0]));
        }
    }

    /// Sets the shared background word, unless one is already set: the first
    /// background word wins.
    pub fn fill_empty(&mut self, value: &str)
        requires
            old(self).wf(),
        ensures
            final(self).wf(),
            final(self)@ == builder_fill_empty(old(self)@, value@),
    {
        if self.empty.is_none() {
            self.empty = Some(value.to_owned());
        }
        proof {
            assert(self@.slots =~= builder_fill_empty(old(self)@, value@).slots);
            assert(self@ =~~= builder_fill_empty(old(self)@, value@));
        }
    }

    /// True exactly when the background word is set and some context's row
    /// assembly has become full.
    pub fn is_full(&self) -> (r: bool)
        ensures
            r == builder_full(self@),
    {
        self.empty.is_some() && self.body_ready.is_some()
    }

    /// Reads the finished board out of a full assembly: the background word,
    /// the four shape rows of the recorded ready context, and the background
    /// word again.
    pub fn convert(&self) -> (r: [String; 6])
        requires
            self.wf(),
            builder_full(self@),
        ensures
            r.deep_view() == board_model(self@),
    {
        let context = self.body_ready.unwrap();
        let i = context_index(&context);
        let empty_word = self.empty.as_ref().unwrap();
        let r = [
            empty_word.clone(),
            self.body[i].head.as_ref().unwrap().clone(),
            self.body[i].eyes.as_ref().unwrap().clone(),
            self.body[i].body.as_ref().unwrap().clone(),
            self.body[i].legs.as_ref().unwrap().clone(),
            empty_word.clone(),
        ];
        proof {
            assert(r.deep_view() =~= board_model(self@));
        }
        r
    }

    /// The row assembly currently held for a context.
    pub fn slot(&self, context: &Context) -> (r: &SusBuilderBody)
        requires
            self.wf(),
        ensures
            r@ == self@.slots[*context],
    {
        let i = context_index(context);
        &self.body[i]
    }
}

impl Default for SusBuilder {
    fn default() -> (r: SusBuilder)
        ensures
            r.wf(),
            r@ == builder_model_empty(),
    {
        SusBuilder::new()
    }
}

/// Search state: one assembly per possible background color.
pub struct SusMap {
    pub gray: SusBuilder,
    pub yellow: SusBuilder,
    pub green: SusBuilder,
}

/// Ghost mirror of the search state.
#[verifier::ext_equal]
pub ghost struct MapModel {
    pub gray: BuilderModel,
    pub yellow: BuilderModel,
    pub green: BuilderModel,
}

impl View for SusMap {
    type V = MapModel;

    open spec fn view(&self) -> MapModel {
        MapModel { gray: self.gray@, yellow: self.yellow@, green: self.green@ }
    }
}

/// The search state before any word has been ingested.
pub open spec fn map_model_empty() -> MapModel {
    MapModel {
        gray: builder_model_empty(),
        yellow: builder_model_empty(),
        green: builder_model_empty(),
    }
}

/// The assembly held for a background color.
pub open spec fn map_builder(m: MapModel, background: Color) -> BuilderModel {
    match background {
        Color::Gray => m.gray,
        Color::Yellow => m.yellow,
        Color::Green => m.green,
    }
}

/// Replaces the assembly held for a background color.
pub open spec fn map_set_builder(m: MapModel, background: Color, b: BuilderModel) -> MapModel {
    match background {
        Color::Gray => MapModel { gray: b, ..m },
        Color::Yellow => MapModel { yellow: b, ..m },
        Color::Green => MapModel { green: b, ..m },
    }
}

impl SusBuilder {
    /// Routes a word into the given row of the given context.
    pub fn fill(&mut self, context: Context, p: Part, value: &str)
        requires
            old(self).wf(),
        ensures
            final(self).wf(),
            final(self)@ == builder_fill(old(self)@, context, p, value@),
    {
        match p {
            Part::Head => self.fill_head(context, value),
            Part::Eyes => self.fill_eyes(context, value),
            Part::Body => self.fill_body(context, value),
            Part::Legs => self.fill_legs(context, value),
        }
    }
}

impl SusMap {
    /// Structural invariant: every per-background assembly is well formed.
    pub open spec fn wf(self) -> bool {
        self.gray.wf() && self.yellow.wf() && self.green.wf()
    }

    /// A fresh search state.
    pub fn new() -> (r: SusMap)
        ensures
            r.wf(),
            r@ == map_model_empty(),
    {
        let r = SusMap { gray: SusBuilder::new(), yellow: SusBuilder::new(), green: SusBuilder::new() };
        proof {
            assert(r@ =~~= map_model_empty());
        }
        r
    }

    /// The assembly accumulated for a background color.
    pub fn builder(&self, background: Color) -> (r: &SusBuilder)
        ensures
            r@ == map_builder(self@, background),
            self.wf() ==> r.wf(),
    {
        match background {
            Color::Gray => &self.gray,
            Color::Yellow => &self.yellow,
            Color::Green => &self.green,
        }
    }

    /// Routes a word into the given row of the given context, inside the
    /// assembly of the given background color.
    pub fn fill(&mut self, background: Color, context: Context, p: Part, value: &str)
        requires
            old(self).wf(),
        ensures
            final(self).wf(),
            final(self)@ == map_set_builder(
                old(self)@,
                background,
                builder_fill(map_builder(old(self)@, background), context, p, value@),
            ),
    {
        match background {
            Color::Gray => self.gray.fill(context, p, value),
            Color::Yellow => self.yellow.fill(context, p, value),
            Color::Green => self.green.fill(context, p, value),
        }
    }

    /// Sets the background word of the given background color's assembly,
    /// unless one is already set.
    pub fn fill_empty(&mut self, background: Color, value: &str)
        requires
            old(self).wf(),
        ensures
            final(self).wf(),
            final(self)@ == map_set_builder(
                old(self)@,
                background,
                builder_fill_empty(map_builder(old(self)@, background), value@),
            ),
    {
        match background {
            Color::Gray => self.gray.fill_empty(value),
            Color::Yellow => self.yellow.fill_empty(value),
            Color::Green => self.green.fill_empty(value),
        }
    }

    /// Whether the assembly of the given background color is full.
    pub fn is_full(&self, background: Color) -> (r: bool)
        ensures
            r == builder_full(map_builder(self@, background)),
    {
        match background {
            Color::Gray => self.gray.is_full(),
            Color::Yellow => self.yellow.is_full(),
            Color::Green => self.green.is_full(),
        }
    }

    /// Reads the finished board out of the given background color's
    /// assembly.
    pub fn convert(&self, background: Color) -> (r: [String; 6])
        requires
            self.wf(),
            builder_full(map_builder(self@, background)),
        ensures
            r.deep_view() == board_model(map_builder(self@, background)),
    {
        match background {
            Color::Gray => self.gray.convert(),
            Color::Yellow => self.yellow.convert(),
            Color::Green => self.green.convert(),
        }
    }
}

} // verus!
