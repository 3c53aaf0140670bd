use vstd::prelude::*;
use crate::text_component::Component;

verus! {

/// The mathematical value of a `Component`.
#[verifier::ext_equal]
pub struct ComponentView {
    pub text: Seq<char>,
    pub color: Option<Seq<char>>,
    pub bold: bool,
    pub italic: bool,
    pub underlined: bool,
    pub strikethrough: bool,
    pub obfuscated: bool,
    pub extra: Seq<ComponentView>,
}

pub open spec fn opt_string_view(c: Option<String>) -> Option<Seq<char>> {
    match c {
        Some(s) => Some(s@),
        None => None,
    }
}

#[verifier::opaque]
pub open spec fn component_view(c: Component) -> ComponentView
    decreases c,
{
    ComponentView {
        text: c.text@,
        color: opt_string_view(c.color),
        bold: c.bold,
        italic: c.italic,
        underlined: c.underlined,
        strikethrough: c.strikethrough,
        obfuscated: c.obfuscated,
        extra: components_view(c.extra@),
    }
}

pub open spec fn components_view(cs: Seq<Component>) -> Seq<ComponentView>
    decreases cs,
{
    if cs.len() == 0 {
        Seq::empty()
    } else {
        components_view(cs.drop_last()).push(component_view(cs.last()))
    }
}

impl View for Component {
    type V = ComponentView;

    open spec fn view(&self) -> ComponentView {
        component_view(*self)
    }
}

/// The view of a component, field by field.
pub broadcast proof fn lemma_view_fields(c: Component)
    ensures
        #[trigger] component_view(c) == (ComponentView {
            text: c.text@,
            color: opt_string_view(c.color),
            bold: c.bold,
            italic: c.italic,
            underlined: c.underlined,
            strikethrough: c.strikethrough,
            obfuscated: c.obfuscated,
            extra: components_view(c.extra@),
        }),
{
    reveal(component_view);
}

/// `components_view` keeps length and maps each component to its view.
pub proof fn lemma_components_view(cs: Seq<Component>)
    ensures
        components_view(cs).len() == cs.len(),
        forall|i: int| 0 <= i < cs.len() ==> #[trigger] components_view(cs)[i] == component_view(cs[i]),
    decreases cs.len(),
{
    reveal(component_view);
    if cs.len() > 0 {
        lemma_components_view(cs.drop_last());
        assert(components_view(cs) == components_view(cs.drop_last()).push(component_view(cs.last())));
        assert forall|i: int| 0 <= i < cs.len() implies #[trigger] components_view(cs)[i] == component_view(cs[i]) by {
            if i < cs.len() - 1 {
                assert(cs.drop_last()[i] == cs[i]);
            }
        }
    }
}

} // verus!
