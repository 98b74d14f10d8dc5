use vstd::prelude::*;

verus! {

/// Makes the host's element type usable in signatures: a widget receives its
/// element as an opaque handle and never looks inside it from verified code.
#[verifier::external_type_specification]
#[verifier::external_body]
pub struct ExHtmlElement(web_sys::HtmlElement);

/// One lifecycle call, as the host makes it and as a widget receives it.
pub ghost enum Callback {
    /// The element handed over at `init`.
    Init { this: web_sys::HtmlElement },
    /// A query of the watched attribute names; a widget receives it as a
    /// query, not as a change.
    ObservedAttributes,
    /// An attribute change; `None` stands for an absent value.
    AttributeChanged {
        name: Seq<char>,
        old_value: Option<Seq<char>>,
        new_value: Option<Seq<char>>,
    },
    Connected,
    Disconnected,
    Adopted,
}

/// The view of an optional attribute value: absent stays absent, and a
/// present value, even an empty one, stays present.
pub open spec fn attr_view(v: Option<String>) -> Option<Seq<char>> {
    match v {
        Some(s) => Some(s@),
        None => None,
    }
}

/// The record of an attribute change with these arguments.
pub open spec fn attribute_call(
    name: String,
    old_value: Option<String>,
    new_value: Option<String>,
) -> Callback {
    Callback::AttributeChanged {
        name: name@,
        old_value: attr_view(old_value),
        new_value: attr_view(new_value),
    }
}

/// The lifecycle a widget implements. The host never calls these methods
/// directly: the bridge calls them, once the widget has been constructed.
/// The attributes a widget watches are fixed for its life: no lifecycle call
/// changes them. Each mutating call adds itself, with its arguments, to the
/// widget's record of received calls.
pub trait Component {
    /// The attribute names this widget watches, in order. A widget states
    /// them here; one that keeps this default watches no attribute, and its
    /// `observed_attributes` returns an empty list.
    open spec fn observed(&self) -> Seq<String> {
        Seq::empty()
    }

    /// The lifecycle calls this widget has received, in order. A widget
    /// verified against this trait states its record here: the default, an
    /// empty record, does not meet the contracts of the mutating methods.
    open spec fn received(&self) -> Seq<Callback> {
        Seq::empty()
    }

    /// Hands the widget the element it lives in.
    fn init(&mut self, this: web_sys::HtmlElement)
        ensures
            final(self).observed() == old(self).observed(),
            final(self).received() == old(self).received().push(Callback::Init { this }),
    ;

    /// The names of the attributes the host should watch for this widget.
    /// A pure query: it depends on the widget alone.
    fn observed_attributes(&self) -> (r: Vec<String>)
        ensures
            r@ == self.observed(),
    ;

    /// Called when a watched attribute is added, removed or changed. `None`
    /// stands for an absent attribute, distinct from `Some` of an empty string.
    fn attribute_changed_callback(
        &mut self,
        name: String,
        old_value: Option<String>,
        new_value: Option<String>,
    )
        ensures
            final(self).observed() == old(self).observed(),
            final(self).received() == old(self).received().push(
                attribute_call(name, old_value, new_value),
            ),
    ;

    /// Called when the element enters a live document.
    fn connected_callback(&mut self)
        ensures
            final(self).observed() == old(self).observed(),
            final(self).received() == old(self).received().push(Callback::Connected),
    ;

    /// Called when the element leaves a live document.
    fn disconnected_callback(&mut self)
        ensures
            final(self).observed() == old(self).observed(),
            final(self).received() == old(self).received().push(Callback::Disconnected),
    ;

    /// Called when the element moves to another document.
    fn adopted_callback(&mut self)
        ensures
            final(self).observed() == old(self).observed(),
            final(self).received() == old(self).received().push(Callback::Adopted),
    ;
}

} // verus!
