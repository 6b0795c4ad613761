use vstd::prelude::*;

verus! {

/// What the input device reports of a card visual in one tick.
#[derive(Clone, Copy, Debug, PartialEq, Eq, Structural)]
pub enum Interaction {
    /// Neither hovered nor pressed.
    Idle,
    Hovered,
    Pressed,
}

/// The feedback a card visual shows.
#[derive(Clone, Copy, Debug, PartialEq, Eq, Structural)]
pub enum FeedbackColor {
    Idle,
    Hovered,
    Pressed,
}

/// The on-screen representation of one card in hand.
#[derive(Clone, Copy, Debug, PartialEq, Eq, Structural)]
pub struct CardVisual {
    /// Identity of the visual, as the host knows it.
    pub id: u64,
    /// The state reported in the last tick.
    pub interaction: Interaction,
    pub color: FeedbackColor,
    /// Whether the visual can still be played; removed on activation.
    pub interactive: bool,
}

/// Published when a card visual is activated.
#[derive(Clone, Copy, Debug, PartialEq, Eq, Structural)]
pub struct PlayCardEvent {
    pub card: u64,
}

impl CardVisual {
    /// A fresh visual: idle and interactive.
    pub open spec fn new_spec(id: u64) -> CardVisual {
        CardVisual { id, interaction: Interaction::Idle, color: FeedbackColor::Idle, interactive: true }
    }

    pub fn new(id: u64) -> (r: CardVisual)
        ensures
            r == CardVisual::new_spec(id),
    {
        CardVisual { id, interaction: Interaction::Idle, color: FeedbackColor::Idle, interactive: true }
    }
}

/// Whether reporting `s` for `v` activates it: the visual is still
/// interactive, its state changed, and the new state is pressed.
pub open spec fn activates(v: CardVisual, s: Interaction) -> bool {
    v.interactive && s != v.interaction && s == Interaction::Pressed
}

/// The visual after `s` is reported for it. An unchanged state, or a visual
/// that lost its interactive capability, only records the report.
pub open spec fn step(v: CardVisual, s: Interaction) -> CardVisual {
    if !v.interactive || s == v.interaction {
        CardVisual { interaction: s, ..v }
    } else {
        match s {
            Interaction::Pressed => CardVisual {
                interaction: s,
                color: FeedbackColor::Pressed,
                interactive: false,
                ..v
            },
            Interaction::Hovered => CardVisual { interaction: s, color: FeedbackColor::Hovered, ..v },
            Interaction::Idle => CardVisual { interaction: s, color: FeedbackColor::Idle, ..v },
        }
    }
}

/// The events that one tick publishes, in visual order, where `ss[k]` is
/// reported for `vs[k]`.
pub open spec fn events_of(vs: Seq<CardVisual>, ss: Seq<Interaction>) -> Seq<PlayCardEvent>
    decreases vs.len(),
{
    if vs.len() == 0 {
        Seq::empty()
    } else {
        let prior = events_of(vs.drop_last(), ss.drop_last());
        if activates(vs.last(), ss[vs.len() - 1]) {
            prior.push(PlayCardEvent { card: vs.last().id })
        } else {
            prior
        }
    }
}

/// Applies the report `s` to `v`; returns the event it publishes, if any.
pub fn react(v: &mut CardVisual, s: Interaction) -> (r: Option<PlayCardEvent>)
    ensures
        *final(v) == step(*old(v), s),
        r == (if activates(*old(v), s) {
            Some(PlayCardEvent { card: old(v).id })
        } else {
            None
        }),
{
    if !v.interactive || s == v.interaction {
        v.interaction = s;
        return None;
    }
    v.interaction = s;
    match s {
        Interaction::Pressed => {
            v.color = FeedbackColor::Pressed;
            v.interactive = false;
            Some(PlayCardEvent { card: v.id })
        },
        Interaction::Hovered => {
            v.color = FeedbackColor::Hovered;
            None
        },
        Interaction::Idle => {
            v.color = FeedbackColor::Idle;
            None
        },
    }
}

/// A queue of events, delivered in the order they were published.
#[derive(Debug)]
pub struct EventBus {
    events: Vec<PlayCardEvent>,
}

impl View for EventBus {
    type V = Seq<PlayCardEvent>;

    closed spec fn view(&self) -> Seq<PlayCardEvent> {
        self.events@
    }
}

impl EventBus {
    pub fn new() -> (r: EventBus)
        ensures
            r@ == Seq::<PlayCardEvent>::empty(),
    {
        EventBus { events: Vec::new() }
    }

    pub fn publish(&mut self, e: PlayCardEvent)
        ensures
            final(self)@ == old(self)@.push(e),
    {
        self.events.push(e);
    }

    /// Hands out every queued event, in publish order, and leaves the queue empty.
    pub fn drain(&mut self) -> (r: Vec<PlayCardEvent>)
        ensures
            r@ == old(self)@,
            final(self)@ == Seq::<PlayCardEvent>::empty(),
    {
        let mut taken: Vec<PlayCardEvent> = Vec::new();
        std::mem::swap(&mut taken, &mut self.events);
        taken
    }
}

/// Runs one tick of the interaction pipeline: `signals[k]` is what the host
/// reports for `visuals[k]`. Returns the events of this tick, in visual order;
/// none of them outlives the tick.
pub fn interaction_tick(visuals: &mut Vec<CardVisual>, signals: &Vec<Interaction>) -> (r: Vec<
    PlayCardEvent,
>)
    requires
        old(visuals)@.len() == signals@.len(),
    ensures
        final(visuals)@.len() == old(visuals)@.len(),
        forall|k: int|
            0 <= k < old(visuals)@.len() ==> #[trigger] final(visuals)@[k] == step(
                old(visuals)@[k],
                signals@[k],
            ),
        r@ == events_of(old(visuals)@, signals@),
{
    let mut bus = EventBus::new();
    let mut k: usize = 0;
    while k < visuals.len()
        invariant
            k <= visuals@.len(),
            visuals@.len() == old(visuals)@.len(),
            visuals@.len() == signals@.len(),
            forall|j: int| 0 <= j < k ==> #[trigger] visuals@[j] == step(old(visuals)@[j], signals@[j]),
            forall|j: int| k <= j < visuals@.len() ==> #[trigger] visuals@[j] == old(visuals)@[j],
            bus@ == events_of(old(visuals)@.take(k as int), signals@.take(k as int)),
        decreases visuals@.len() - k,
    {
        let mut v = visuals[k];
        let e = react(&mut v, signals[k]);
        visuals.set(k, v);
        proof {
            let vs = old(visuals)@.take(k + 1);
            let ss = signals@.take(k + 1);
            assert(vs.drop_last() =~= old(visuals)@.take(k as int));
            assert(ss.drop_last() =~= signals@.take(k as int));
        }
        match e {
            Some(ev) => bus.publish(ev),
            None => {},
        }
        k = k + 1;
    }
    assert(old(visuals)@.take(k as int) =~= old(visuals)@);
    assert(signals@.take(k as int) =~= signals@);
    bus.drain()
}

/// How many of `es` name the visual `id`.
pub open spec fn count_events(es: Seq<PlayCardEvent>, id: u64) -> nat
    decreases es.len(),
{
    if es.len() == 0 {
        0
    } else {
        count_events(es.drop_last(), id) + if es.last().card == id {
            1nat
        } else {
            0nat
        }
    }
}

proof fn lemma_count_push(es: Seq<PlayCardEvent>, e: PlayCardEvent, id: u64)
    ensures
        count_events(es.push(e), id) == count_events(es, id) + if e.card == id {
            1nat
        } else {
            0nat
        },
{
    assert(es.push(e).drop_last() =~= es);
}

/// A tick in which no visual is `id` publishes no event naming `id`.
proof fn lemma_no_events_for(vs: Seq<CardVisual>, ss: Seq<Interaction>, id: u64)
    requires
        vs.len() == ss.len(),
        forall|j: int| 0 <= j < vs.len() ==> #[trigger] vs[j].id != id,
    ensures
        count_events(events_of(vs, ss), id) == 0,
    decreases vs.len(),
{
    if vs.len() > 0 {
        assert forall|j: int| 0 <= j < vs.drop_last().len() implies #[trigger] vs.drop_last()[j].id
            != id by {
            assert(vs.drop_last()[j] == vs[j]);
        }
        lemma_no_events_for(vs.drop_last(), ss.drop_last(), id);
        let prior = events_of(vs.drop_last(), ss.drop_last());
        lemma_count_push(prior, PlayCardEvent { card: vs.last().id }, id);
    }
}

/// Where the visual at `i` is the only one with its identity, the tick
/// publishes one event naming it if it activates, and none otherwise.
pub proof fn lemma_events_for_visual(vs: Seq<CardVisual>, ss: Seq<Interaction>, i: int)
    requires
        vs.len() == ss.len(),
        0 <= i < vs.len(),
        forall|j: int| 0 <= j < vs.len() && j != i ==> #[trigger] vs[j].id != vs[i].id,
    ensures
        count_events(events_of(vs, ss), vs[i].id) == if activates(vs[i], ss[i]) {
            1nat
        } else {
            0nat
        },
    decreases vs.len(),
{
    let id = vs[i].id;
    let n = vs.len() - 1;
    let pre = vs.drop_last();
    let prior = events_of(pre, ss.drop_last());
    lemma_count_push(prior, PlayCardEvent { card: vs.last().id }, id);
    if i == n {
        assert forall|j: int| 0 <= j < pre.len() implies #[trigger] pre[j].id != id by {
            assert(pre[j] == vs[j]);
        }
        lemma_no_events_for(pre, ss.drop_last(), id);
    } else {
        assert forall|j: int| 0 <= j < pre.len() && j != i implies #[trigger] pre[j].id != pre[i].id by {
            assert(pre[j] == vs[j]);
        }
        lemma_events_for_visual(pre, ss.drop_last(), i);
        assert(vs.last().id != id);
    }
}

/// A visual loses its interactive capability exactly when it activates;
/// every other visual keeps its capability as it was.
pub proof fn lemma_capability_removed_on_activation(v: CardVisual, s: Interaction)
    ensures
        step(v, s).interactive == (v.interactive && !activates(v, s)),
        step(v, s).id == v.id,
        step(v, s).interaction == s,
{
}

/// In a tick where the visual at `i` is interactive, idle or hovered, the
/// only one with its identity, and reported pressed, exactly one event names
/// it, it shows the pressed color and loses its capability. In any next tick
/// where it is again the only one with its identity and again reported
/// pressed, no event names it.
pub proof fn lemma_activation_emits_once(
    vs: Seq<CardVisual>,
    ss: Seq<Interaction>,
    i: int,
    next_vs: Seq<CardVisual>,
    next_ss: Seq<Interaction>,
)
    requires
        vs.len() == ss.len(),
        0 <= i < vs.len(),
        forall|j: int| 0 <= j < vs.len() && j != i ==> #[trigger] vs[j].id != vs[i].id,
        vs[i].interactive,
        vs[i].interaction != Interaction::Pressed,
        ss[i] == Interaction::Pressed,
        next_vs.len() == next_ss.len(),
        0 <= i < next_vs.len(),
        next_vs[i] == step(vs[i], ss[i]),
        next_ss[i] == Interaction::Pressed,
        forall|j: int| 0 <= j < next_vs.len() && j != i ==> #[trigger] next_vs[j].id != vs[i].id,
    ensures
        count_events(events_of(vs, ss), vs[i].id) == 1,
        step(vs[i], ss[i]).color == FeedbackColor::Pressed,
        !step(vs[i], ss[i]).interactive,
        count_events(events_of(next_vs, next_ss), vs[i].id) == 0,
{
    lemma_events_for_visual(vs, ss, i);
    lemma_events_for_visual(next_vs, next_ss, i);
}

} // verus!
