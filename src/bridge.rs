use vstd::prelude::*;

use crate::component::{attribute_call, Callback, Component};

verus! {

/// Where an element stands in its life, as the bridge sees it.
#[derive(PartialEq, Eq, Structural, Clone, Copy, Debug)]
pub enum Lifecycle {
    /// No callback has arrived yet: the widget does not exist.
    Unconstructed,
    /// The widget exists and the element was not last removed from a document.
    Active,
    /// The widget exists and the element was last removed from a document.
    Disconnected,
}

/// What a widget's record of received calls becomes when the bridge hands it
/// `call`: the query of watched names leaves it as it was, any other call is
/// added to it.
pub open spec fn delivered(record: Seq<Callback>, call: Callback) -> Seq<Callback> {
    if call == Callback::ObservedAttributes {
        record
    } else {
        record.push(call)
    }
}

/// A widget's record after the bridge hands it `calls`, one after another.
pub open spec fn replay(record: Seq<Callback>, calls: Seq<Callback>) -> Seq<Callback>
    decreases calls.len(),
{
    if calls.len() == 0 {
        record
    } else {
        delivered(replay(record, calls.drop_last()), calls.last())
    }
}

/// The state an element reaches after one lifecycle call.
pub open spec fn next_lifecycle(before: Lifecycle, call: Callback) -> Lifecycle {
    match call {
        Callback::Connected => Lifecycle::Active,
        Callback::Disconnected => Lifecycle::Disconnected,
        _ => if before == Lifecycle::Unconstructed {
            Lifecycle::Active
        } else {
            before
        },
    }
}

/// The number of times a call to `init` occurs in a sequence of callbacks.
pub open spec fn init_count(calls: Seq<Callback>) -> nat
    decreases calls.len(),
{
    if calls.len() == 0 {
        0
    } else {
        init_count(calls.drop_last()) + match calls.last() {
            Callback::Init { .. } => 1nat,
            _ => 0nat,
        }
    }
}

/// The adapter that the host drives for one element. It builds the widget
/// with the factory on the first lifecycle call, whichever it is, and hands
/// every call on to that one widget.
pub struct BaseComponent<C, F> {
    handler: Option<C>,
    component_constructor: F,
    state: Lifecycle,
    factory_calls: Ghost<nat>,
}

impl<C: Component, F: Fn() -> C> BaseComponent<C, F> {
    /// The widget, once it exists.
    pub closed spec fn widget(&self) -> Option<C> {
        self.handler
    }

    /// The factory the bridge was built with.
    pub closed spec fn factory(&self) -> F {
        self.component_constructor
    }

    /// Where the element stands in its life.
    pub closed spec fn lifecycle_spec(&self) -> Lifecycle {
        self.state
    }

    /// How many times the factory has been called.
    pub closed spec fn factory_calls(&self) -> nat {
        self.factory_calls@
    }

    /// The widget exists exactly when the element has left the
    /// `Unconstructed` state.
    pub open spec fn started(&self) -> bool {
        self.widget().is_some() <==> self.lifecycle_spec() != Lifecycle::Unconstructed
    }

    /// The bridge's invariant: the widget exists exactly when the factory
    /// has been called, and then it was called once; the factory may be called.
    pub closed spec fn wf(&self) -> bool {
        &&& self.component_constructor.requires(())
        &&& self.handler.is_some() <==> self.state != Lifecycle::Unconstructed
        &&& self.factory_calls@ == if self.handler.is_some() {
            1nat
        } else {
            0nat
        }
    }

    /// What every lifecycle call owes. Afterwards the widget exists and the
    /// factory has been called exactly once in the element's life, so not by
    /// this call where the widget existed before. The widget has received
    /// `call`, and nothing else, on top of what it had received before: the
    /// widget that existed, or else the one the factory built. Its watched
    /// names are kept, and the lifecycle moves on.
    pub open spec fn dispatched(before: Self, after: Self, call: Callback) -> bool {
        &&& after.wf()
        &&& before.started()
        &&& after.started()
        &&& after.widget().is_some()
        &&& after.factory() == before.factory()
        &&& after.factory_calls() == 1
        &&& before.widget().is_some() ==> {
            &&& before.factory_calls() == 1
            &&& after.widget().unwrap().observed() == before.widget().unwrap().observed()
            &&& after.widget().unwrap().received() == delivered(
                before.widget().unwrap().received(),
                call,
            )
        }
        &&& before.widget().is_none() ==> exists|w: C|
            {
                &&& #[trigger] call_ensures(before.factory(), (), w)
                &&& after.widget().unwrap().observed() == w.observed()
                &&& after.widget().unwrap().received() == delivered(w.received(), call)
            }
        &&& after.lifecycle_spec() == next_lifecycle(before.lifecycle_spec(), call)
    }

    /// A bridge for one element, bound to `constructor`. The widget is not
    /// built yet.
    pub fn new(constructor: F) -> (r: Self)
        requires
            constructor.requires(()),
        ensures
            r.wf(),
            r.started(),
            r.widget().is_none(),
            r.factory() == constructor,
            r.factory_calls() == 0,
            r.lifecycle_spec() == Lifecycle::Unconstructed,
    {
        BaseComponent {
            handler: None,
            component_constructor: constructor,
            state: Lifecycle::Unconstructed,
            factory_calls: Ghost(0),
        }
    }

    /// The result that `observed_attributes` owes: the names the widget
    /// declares, from a widget that the query left as it was, which is the
    /// factory's result where none existed before.
    pub open spec fn observed_result(before: Self, after: Self, r: Seq<String>) -> bool {
        &&& Self::dispatched(before, after, Callback::ObservedAttributes)
        &&& r == after.widget().unwrap().observed()
        &&& before.widget().is_some() ==> after.widget() == before.widget()
        &&& before.widget().is_none() ==> call_ensures(
            before.factory(),
            (),
            after.widget().unwrap(),
        )
    }

    /// Hands the widget its element. Builds the widget first if no call came
    /// before.
    pub fn init(&mut self, this: web_sys::HtmlElement)
        requires
            old(self).wf(),
        ensures
            Self::dispatched(*old(self), *final(self), Callback::Init { this }),
    {
        let ghost call = Callback::Init { this };
        self.ensure_initialized();
        let ghost built = self.handler.unwrap();
        match &mut self.handler {
            Some(widget) => widget.init(this),
            None => {},
        }
        proof {
            Self::lemma_dispatched(*old(self), *self, call, built);
        }
    }

    /// The attribute names the widget watches. The host may ask before `init`
    /// and as often as it likes: the widget is built if need be, and the query
    /// does not change it.
    pub fn observed_attributes(&mut self) -> (r: Vec<String>)
        requires
            old(self).wf(),
        ensures
            Self::observed_result(*old(self), *final(self), r@),
    {
        self.ensure_initialized();
        let ghost built = self.handler.unwrap();
        let r = match &self.handler {
            Some(widget) => widget.observed_attributes(),
            None => Vec::new(),
        };
        proof {
            Self::lemma_dispatched(*old(self), *self, Callback::ObservedAttributes, built);
        }
        r
    }

    /// Hands an attribute change on to the widget: the name and both values
    /// as they came, with absent values kept apart from empty ones.
    pub fn attribute_changed_callback(
        &mut self,
        name: String,
        old_value: Option<String>,
        new_value: Option<String>,
    )
        requires
            old(self).wf(),
        ensures
            Self::dispatched(
                *old(self),
                *final(self),
                attribute_call(name, old_value, new_value),
            ),
    {
        let ghost call = attribute_call(name, old_value, new_value);
        self.ensure_initialized();
        let ghost built = self.handler.unwrap();
        match &mut self.handler {
            Some(widget) => widget.attribute_changed_callback(name, old_value, new_value),
            None => {},
        }
        proof {
            Self::lemma_dispatched(*old(self), *self, call, built);
        }
    }

    /// The element entered a live document: the widget renders. On a
    /// reconnection the widget is the one that was built before.
    pub fn connected_callback(&mut self)
        requires
            old(self).wf(),
        ensures
            Self::dispatched(*old(self), *final(self), Callback::Connected),
    {
        self.ensure_initialized();
        let ghost built = self.handler.unwrap();
        match &mut self.handler {
            Some(widget) => widget.connected_callback(),
            None => {},
        }
        self.state = Lifecycle::Active;
        proof {
            Self::lemma_dispatched(*old(self), *self, Callback::Connected, built);
        }
    }

    /// The element left its document: the widget releases what it attached.
    pub fn disconnected_callback(&mut self)
        requires
            old(self).wf(),
        ensures
            Self::dispatched(*old(self), *final(self), Callback::Disconnected),
    {
        self.ensure_initialized();
        let ghost built = self.handler.unwrap();
        match &mut self.handler {
            Some(widget) => widget.disconnected_callback(),
            None => {},
        }
        self.state = Lifecycle::Disconnected;
        proof {
            Self::lemma_dispatched(*old(self), *self, Callback::Disconnected, built);
        }
    }

    /// The element moved to another document.
    pub fn adopted_callback(&mut self)
        requires
            old(self).wf(),
        ensures
            Self::dispatched(*old(self), *final(self), Callback::Adopted),
    {
        self.ensure_initialized();
        let ghost built = self.handler.unwrap();
        match &mut self.handler {
            Some(widget) => widget.adopted_callback(),
            None => {},
        }
        proof {
            Self::lemma_dispatched(*old(self), *self, Callback::Adopted, built);
        }
    }

    /// Where the element stands in its life.
    pub fn lifecycle(&self) -> (r: Lifecycle)
        ensures
            r == self.lifecycle_spec(),
    {
        self.state
    }

    /// Whether the widget has been built.
    pub fn is_constructed(&self) -> (r: bool)
        ensures
            r == self.widget().is_some(),
    {
        self.handler.is_some()
    }

    /// The widget, once it exists.
    pub fn component(&self) -> (r: Option<&C>)
        ensures
            r.is_some() == self.widget().is_some(),
            r.is_some() ==> *r.unwrap() == self.widget().unwrap(),
    {
        self.handler.as_ref()
    }

    /// However many lifecycle calls arrive, and in whatever order, the
    /// factory runs once in the element's life, and one widget receives every
    /// call, in order. After the first call the widget exists and the factory
    /// has been called exactly once. The widget's record is its record before
    /// the run with the calls added, the query of watched names aside; on a
    /// fresh bridge it is the record of a widget the factory built.
    pub proof fn factory_called_once(bridges: Seq<Self>, calls: Seq<Callback>)
        requires
            bridges.len() == calls.len() + 1,
            bridges[0].wf(),
            forall|i: int|
                0 <= i < calls.len() ==> #[trigger] Self::dispatched(
                    bridges[i],
                    bridges[i + 1],
                    calls[i],
                ),
        ensures
            forall|i: int|
                0 < i < bridges.len() ==> {
                    &&& (#[trigger] bridges[i]).factory_calls() == 1
                    &&& bridges[i].widget().is_some()
                },
            bridges[0].widget().is_some() ==> bridges.last().widget().unwrap().received()
                == replay(bridges[0].widget().unwrap().received(), calls),
            bridges[0].widget().is_none() && calls.len() > 0 ==> exists|w: C|
                {
                    &&& #[trigger] call_ensures(bridges[0].factory(), (), w)
                    &&& bridges.last().widget().unwrap().received() == replay(w.received(), calls)
                },
        decreases calls.len(),
    {
        assert forall|i: int| 0 < i < bridges.len() implies {
            &&& (#[trigger] bridges[i]).factory_calls() == 1
            &&& bridges[i].widget().is_some()
        } by {
            let j = i - 1;
            assert(Self::dispatched(bridges[j], bridges[j + 1], calls[j]));
        }
        if calls.len() > 0 {
            let n = calls.len() - 1;
            let front = bridges.drop_last();
            let first_calls = calls.drop_last();
            assert(front.len() == first_calls.len() + 1);
            assert forall|i: int| 0 <= i < first_calls.len() implies #[trigger] Self::dispatched(
                front[i],
                front[i + 1],
                first_calls[i],
            ) by {
                assert(Self::dispatched(bridges[i], bridges[i + 1], calls[i]));
            }
            Self::factory_called_once(front, first_calls);
            assert(Self::dispatched(bridges[n], bridges[n + 1], calls[n]));
            assert(calls.drop_last() =~= first_calls);
            assert(replay(bridges[0].widget().unwrap().received(), calls) == delivered(
                replay(bridges[0].widget().unwrap().received(), first_calls),
                calls[n],
            ));
            if bridges[0].widget().is_none() {
                if n == 0 {
                    let w = choose|w: C|
                        {
                            &&& #[trigger] call_ensures(bridges[0].factory(), (), w)
                            &&& bridges[1].widget().unwrap().observed() == w.observed()
                            &&& bridges[1].widget().unwrap().received() == delivered(
                                w.received(),
                                calls[0],
                            )
                        };
                    assert(first_calls.len() == 0);
                    assert(replay(w.received(), calls) == delivered(
                        replay(w.received(), first_calls),
                        calls[0],
                    ));
                    assert(call_ensures(bridges[0].factory(), (), w));
                } else {
                    let w = choose|w: C|
                        {
                            &&& #[trigger] call_ensures(front[0].factory(), (), w)
                            &&& front.last().widget().unwrap().received() == replay(
                                w.received(),
                                first_calls,
                            )
                        };
                    assert(front.last() == bridges[n]);
                    assert(replay(w.received(), calls) == delivered(
                        replay(w.received(), first_calls),
                        calls[n],
                    ));
                    assert(call_ensures(bridges[0].factory(), (), w));
                }
            }
        }
    }

    /// Once the widget exists, no run of lifecycle calls changes the
    /// attributes it watches.
    proof fn run_keeps_observed(bridges: Seq<Self>, calls: Seq<Callback>)
        requires
            bridges.len() == calls.len() + 1,
            bridges[0].widget().is_some(),
            forall|i: int|
                0 <= i < calls.len() ==> #[trigger] Self::dispatched(
                    bridges[i],
                    bridges[i + 1],
                    calls[i],
                ),
        ensures
            bridges.last().widget().is_some(),
            bridges.last().widget().unwrap().observed() == bridges[0].widget().unwrap().observed(),
        decreases calls.len(),
    {
        if calls.len() > 0 {
            let n = calls.len() - 1;
            let front = bridges.drop_last();
            let first_calls = calls.drop_last();
            assert(front.len() == first_calls.len() + 1);
            assert forall|i: int| 0 <= i < first_calls.len() implies #[trigger] Self::dispatched(
                front[i],
                front[i + 1],
                first_calls[i],
            ) by {
                assert(Self::dispatched(bridges[i], bridges[i + 1], calls[i]));
            }
            Self::run_keeps_observed(front, first_calls);
            assert(Self::dispatched(bridges[n], bridges[n + 1], calls[n]));
        }
    }

    /// The observed attributes are the same on every ask, the first of which
    /// may come before `init`, whatever lifecycle calls arrive in between: the
    /// first ask builds the widget if need be, and later asks find it with the
    /// same names.
    pub proof fn observed_attributes_stable(
        first: Self,
        between: Seq<Self>,
        calls: Seq<Callback>,
        last: Self,
        r1: Seq<String>,
        r2: Seq<String>,
    )
        requires
            first.wf(),
            between.len() == calls.len() + 1,
            Self::observed_result(first, between[0], r1),
            forall|i: int|
                0 <= i < calls.len() ==> #[trigger] Self::dispatched(
                    between[i],
                    between[i + 1],
                    calls[i],
                ),
            Self::observed_result(between.last(), last, r2),
        ensures
            r1 == r2,
            last.factory_calls() == 1,
    {
        Self::run_keeps_observed(between, calls);
    }

    /// Removing an element and inserting it again hands `disconnected` and
    /// then `connected` to the same widget, without calling the factory or the
    /// widget's `init` again.
    pub proof fn reconnect_keeps_widget(connected: Self, removed: Self, reinserted: Self)
        requires
            connected.wf(),
            connected.widget().is_some(),
            Self::dispatched(connected, removed, Callback::Disconnected),
            Self::dispatched(removed, reinserted, Callback::Connected),
        ensures
            removed.lifecycle_spec() == Lifecycle::Disconnected,
            reinserted.lifecycle_spec() == Lifecycle::Active,
            connected.factory_calls() == 1,
            reinserted.factory_calls() == 1,
            reinserted.widget().unwrap().received() == connected.widget().unwrap().received().push(
                Callback::Disconnected,
            ).push(Callback::Connected),
            init_count(reinserted.widget().unwrap().received()) == init_count(
                connected.widget().unwrap().received(),
            ),
    {
        let before = connected.widget().unwrap().received();
        let once = before.push(Callback::Disconnected);
        assert(once.drop_last() =~= before);
        assert(once.push(Callback::Connected).drop_last() =~= once);
        assert(init_count(once) == init_count(before));
        assert(init_count(once.push(Callback::Connected)) == init_count(once));
    }

    /// The widget receives an attribute change with the name and both values
    /// as they came: an absent value never reaches it as an empty one, nor an
    /// empty one as absent, in the old value and in the new.
    pub proof fn attribute_absence_kept(
        before: Self,
        after: Self,
        name: String,
        old_value: Option<String>,
        new_value: Option<String>,
        empty: String,
    )
        requires
            before.wf(),
            Self::dispatched(before, after, attribute_call(name, old_value, new_value)),
            empty@.len() == 0,
        ensures
            after.widget().unwrap().received().last() == attribute_call(
                name,
                old_value,
                new_value,
            ),
            old_value is None ==> after.widget().unwrap().received().last() != attribute_call(
                name,
                Some(empty),
                new_value,
            ),
            old_value is Some ==> after.widget().unwrap().received().last() != attribute_call(
                name,
                None,
                new_value,
            ),
            new_value is None ==> after.widget().unwrap().received().last() != attribute_call(
                name,
                old_value,
                Some(empty),
            ),
            new_value is Some ==> after.widget().unwrap().received().last() != attribute_call(
                name,
                old_value,
                None,
            ),
    {
        if before.widget().is_none() {
            let w = choose|w: C|
                {
                    &&& #[trigger] call_ensures(before.factory(), (), w)
                    &&& after.widget().unwrap().observed() == w.observed()
                    &&& after.widget().unwrap().received() == delivered(
                        w.received(),
                        attribute_call(name, old_value, new_value),
                    )
                };
        }
    }

    /// A lifecycle call is dispatched once the widget has received it: the
    /// widget that existed before, or else `built`, the factory's result.
    proof fn lemma_dispatched(before: Self, after: Self, call: Callback, built: C)
        requires
            before.wf(),
            after.wf(),
            after.handler.is_some(),
            after.component_constructor == before.component_constructor,
            after.state == next_lifecycle(before.state, call),
            before.handler.is_none() ==> call_ensures(before.component_constructor, (), built),
            before.handler.is_none() ==> after.handler.unwrap().observed() == built.observed(),
            before.handler.is_none() ==> after.handler.unwrap().received() == delivered(
                built.received(),
                call,
            ),
            before.handler.is_some() ==> after.handler.unwrap().observed()
                == before.handler.unwrap().observed(),
            before.handler.is_some() ==> after.handler.unwrap().received() == delivered(
                before.handler.unwrap().received(),
                call,
            ),
        ensures
            Self::dispatched(before, after, call),
    {
        if before.handler.is_none() {
            assert(call_ensures(before.factory(), (), built));
        }
    }

    /// Builds the widget if it does not exist yet; leaves it alone otherwise.
    fn ensure_initialized(&mut self)
        requires
            old(self).wf(),
        ensures
            final(self).wf(),
            final(self).handler.is_some(),
            final(self).factory_calls@ == 1,
            final(self).component_constructor == old(self).component_constructor,
            old(self).handler.is_some() ==> final(self).handler == old(self).handler,
            old(self).handler.is_some() ==> final(self).state == old(self).state,
            old(self).handler.is_none() ==> final(self).state == Lifecycle::Active,
            old(self).handler.is_none() ==> call_ensures(
                old(self).component_constructor,
                (),
                final(self).handler.unwrap(),
            ),
    {
        if self.handler.is_none() {
            let widget = (self.component_constructor)();
            self.handler = Some(widget);
            self.state = Lifecycle::Active;
            self.factory_calls = Ghost(1);
        }
    }
}

} // verus!
