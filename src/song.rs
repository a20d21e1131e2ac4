//! The parsed song: sources placed on time windows and channels, with their
//! effects; and which sources sound on a channel.
use vstd::prelude::*;
use crate::expr::{ExprView, Expression};
use crate::tokenizer::{Decimal, DecimalView, TimeUnit};

verus! {

/// The channels a source plays on.
#[derive(Clone, Debug, PartialEq)]
pub enum Channels {
    List(Vec<usize>),
    One(usize),
    All,
}

pub ghost enum ChannelsView {
    List(Seq<usize>),
    One(usize),
    All,
}

impl View for Channels {
    type V = ChannelsView;

    open spec fn view(&self) -> ChannelsView {
        match self {
            Channels::List(l) => ChannelsView::List(l@),
            Channels::One(c) => ChannelsView::One(*c),
            Channels::All => ChannelsView::All,
        }
    }
}

pub open spec fn selects(ch: ChannelsView, c: usize) -> bool {
    match ch {
        ChannelsView::List(l) => l.contains(c),
        ChannelsView::One(x) => x == c,
        ChannelsView::All => true,
    }
}

impl Channels {
    /// Whether channel `c` is among these.
    pub fn has(&self, c: usize) -> (r: bool)
        ensures
            r == selects(self@, c),
    {
        match self {
            Channels::List(l) => {
                let mut i: usize = 0;
                while i < l.len()
                    invariant
                        self@ == ChannelsView::List(l@),
                        i <= l@.len(),
                        forall|k: int| 0 <= k < i ==> l@[k] != c,
                    decreases l@.len() - i,
                {
                    if l[i] == c {
                        assert(l@[i as int] == c);
                        assert(l@.contains(c));
                        return true;
                    }
                    i = i + 1;
                }
                false
            },
            Channels::One(x) => *x == c,
            Channels::All => true,
        }
    }
}

#[derive(Clone, Copy, Debug, PartialEq, Eq, Structural)]
pub enum PeriodicSource {
    Sine,
    Saw,
    Square,
    Triangle,
}

/// What a source sounds like: a periodic wave with a frequency and a phase.
#[derive(Debug, PartialEq)]
pub enum SourceType {
    Periodic { freq: Expression, phase: Expression, ty: PeriodicSource },
}

pub ghost struct SourceTypeView {
    pub freq: ExprView,
    pub phase: ExprView,
    pub ty: PeriodicSource,
}

impl View for SourceType {
    type V = SourceTypeView;

    open spec fn view(&self) -> SourceTypeView {
        match self {
            SourceType::Periodic { freq, phase, ty } => SourceTypeView {
                freq: freq@,
                phase: phase@,
                ty: *ty,
            },
        }
    }
}

#[derive(Clone, Copy, Debug, PartialEq, Eq, Structural)]
pub enum EffectType {
    FadeIn,
    FadeOut,
}

/// One end of a time window: a fraction of the enclosing scope, or a duration
/// that is divided by the enclosing scope's length when the song is played.
#[derive(Clone, Debug, PartialEq)]
pub enum Bound {
    Fraction(Decimal),
    Time(Decimal, TimeUnit),
}

pub ghost enum BoundView {
    Fraction(DecimalView),
    Time(DecimalView, TimeUnit),
}

impl View for Bound {
    type V = BoundView;

    open spec fn view(&self) -> BoundView {
        match self {
            Bound::Fraction(d) => BoundView::Fraction(d@),
            Bound::Time(d, u) => BoundView::Time(d@, *u),
        }
    }
}

/// The start bound of a window written without one: the scope's start.
pub open spec fn scope_start() -> BoundView {
    BoundView::Fraction(DecimalView { whole: seq![0u8], frac: Seq::empty() })
}

/// The end bound of a window written without one: the scope's end.
pub open spec fn scope_end() -> BoundView {
    BoundView::Fraction(DecimalView { whole: seq![1u8], frac: Seq::empty() })
}

/// An envelope applied over a window of its source.
#[derive(Debug, PartialEq)]
pub struct Effect {
    pub ty: EffectType,
    pub start: Bound,
    pub end: Bound,
}

pub ghost struct EffectView {
    pub ty: EffectType,
    pub start: BoundView,
    pub end: BoundView,
}

impl View for Effect {
    type V = EffectView;

    open spec fn view(&self) -> EffectView {
        EffectView { ty: self.ty, start: self.start@, end: self.end@ }
    }
}

/// A waveform placed on a window of the song and on some channels.
#[derive(Debug, PartialEq)]
pub struct Source {
    pub ty: SourceType,
    pub start: Bound,
    pub end: Bound,
    pub volume: Expression,
    pub channels: Channels,
    pub effects: Vec<Effect>,
}

pub ghost struct SourceView {
    pub ty: SourceTypeView,
    pub start: BoundView,
    pub end: BoundView,
    pub volume: ExprView,
    pub channels: ChannelsView,
    pub effects: Seq<EffectView>,
}

impl View for Source {
    type V = SourceView;

    open spec fn view(&self) -> SourceView {
        SourceView {
            ty: self.ty@,
            start: self.start@,
            end: self.end@,
            volume: self.volume@,
            channels: self.channels@,
            effects: self.effects@.map_values(|e: Effect| e@),
        }
    }
}

/// A parsed song: its name, channel count, length (an expression in seconds)
/// and sources, in the order written.
#[derive(Debug, PartialEq)]
pub struct Song {
    pub name: String,
    pub channels: usize,
    pub length: Expression,
    pub sources: Vec<Source>,
}

pub ghost struct SongView {
    pub name: Seq<char>,
    pub channels: usize,
    pub length: ExprView,
    pub sources: Seq<SourceView>,
}

impl View for Song {
    type V = SongView;

    open spec fn view(&self) -> SongView {
        SongView {
            name: self.name@,
            channels: self.channels,
            length: self.length@,
            sources: self.sources@.map_values(|s: Source| s@),
        }
    }
}

/// The indices below `n` of the sources that play on channel `c`, in order.
pub open spec fn sources_on(srcs: Seq<SourceView>, c: usize, n: int) -> Seq<usize>
    decreases n,
{
    if n <= 0 {
        Seq::empty()
    } else {
        let r = sources_on(srcs, c, n - 1);
        if selects(srcs[n - 1].channels, c) {
            r.push((n - 1) as usize)
        } else {
            r
        }
    }
}

/// A source plays only on the channels it selects: the sources that sound on
/// a channel are exactly those whose channel clause names it.
pub proof fn lemma_sources_on(srcs: Seq<SourceView>, c: usize, n: int, k: int)
    requires
        0 <= k < n <= srcs.len(),
        n <= usize::MAX,
    ensures
        sources_on(srcs, c, n).contains(k as usize) <==> selects(srcs[k].channels, c),
    decreases n,
{
    let r = sources_on(srcs, c, n - 1);
    if k < n - 1 {
        lemma_sources_on(srcs, c, n - 1, k);
        lemma_sources_on_below(srcs, c, n - 1);
        if selects(srcs[n - 1].channels, c) {
            let pushed = r.push((n - 1) as usize);
            assert(sources_on(srcs, c, n) == pushed);
            if pushed.contains(k as usize) {
                let j = choose|j: int| 0 <= j < pushed.len() && #[trigger] pushed[j] == k as usize;
                if j < r.len() {
                    assert(r[j] == k as usize);
                }
            }
            if r.contains(k as usize) {
                let j = choose|j: int| 0 <= j < r.len() && #[trigger] r[j] == k as usize;
                assert(pushed[j] == k as usize);
            }
        }
    } else {
        lemma_sources_on_below(srcs, c, n - 1);
        if selects(srcs[n - 1].channels, c) {
            assert(r.push((n - 1) as usize)[r.len() as int] == k as usize);
        } else {
            if r.contains(k as usize) {
                let j = choose|j: int| 0 <= j < r.len() && #[trigger] r[j] == k as usize;
                assert(r[j] < n - 1);
            }
        }
    }
}

proof fn lemma_sources_on_below(srcs: Seq<SourceView>, c: usize, n: int)
    requires
        0 <= n <= usize::MAX,
    ensures
        forall|j: int| 0 <= j < sources_on(srcs, c, n).len() ==> sources_on(srcs, c, n)[j] < n,
    decreases n,
{
    if n > 0 {
        lemma_sources_on_below(srcs, c, n - 1);
        let r = sources_on(srcs, c, n - 1);
        if selects(srcs[n - 1].channels, c) {
            let pushed = r.push((n - 1) as usize);
            assert forall|j: int| 0 <= j < pushed.len() implies pushed[j] < n by {
                if j < r.len() {
                    assert(pushed[j] == r[j]);
                }
            }
        }
    }
}

impl Song {
    pub fn channels(&self) -> (r: usize)
        ensures
            r == self.channels,
    {
        self.channels
    }

    pub fn name(&self) -> (r: &str)
        ensures
            r@ == self.name@,
    {
        self.name.as_str()
    }

    /// The indices of the sources that play on channel `c`, in order.
    pub fn sources_on(&self, c: usize) -> (r: Vec<usize>)
        ensures
            r@ == sources_on(self@.sources, c, self@.sources.len() as int),
    {
        let mut r: Vec<usize> = Vec::new();
        let mut i: usize = 0;
        while i < self.sources.len()
            invariant
                i <= self.sources@.len(),
                r@ == sources_on(self@.sources, c, i as int),
            decreases self.sources@.len() - i,
        {
            if self.sources[i].channels.has(c) {
                r.push(i);
            }
            i = i + 1;
        }
        r
    }
}

} // verus!
