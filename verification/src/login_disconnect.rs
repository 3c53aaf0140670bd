use vstd::prelude::*;
use crate::component_view::ComponentView;
use crate::json::{json_escape, spec_json_string};
use crate::text_component::{json_component, json_head, Component};

verus! {

/// The packet that ends a connection during login, with the reason shown to the player.
pub struct LoginDisconnectPacket {
    /// Reason as a JSON text component.
    pub reason: String,
}

impl Default for LoginDisconnectPacket {
    /// Disconnects with the reason "Disconnected".
    fn default() -> (r: Self)
        ensures
            r.reason@ == "{\"text\":\"Disconnected\"}"@,
    {
        LoginDisconnectPacket { reason: "{\"text\":\"Disconnected\"}".to_owned() }
    }
}

impl LoginDisconnectPacket {
    /// Disconnects with `text`, unstyled, as the reason.
    pub fn text(text: &str) -> (r: LoginDisconnectPacket)
        ensures
            r.reason@ == json_component(ComponentView { text: text@, ..Component::spec_default() }),
    {
        let component = Component::new(text);
        LoginDisconnectPacket { reason: component.to_json() }
    }
}

/// The default reason is the one a packet made from the text "Disconnected" carries.
pub proof fn law_default_reason_is_disconnected_text()
    ensures
        json_component(ComponentView { text: "Disconnected"@, ..Component::spec_default() })
            == "{\"text\":\"Disconnected\"}"@,
{
    let v = ComponentView { text: "Disconnected"@, ..Component::spec_default() };
    reveal_strlit("Disconnected");
    reveal_strlit("{\"text\":\"Disconnected\"}");
    reveal_strlit("{\"text\":");
    reveal_strlit("}");
    reveal_with_fuel(json_escape, 13);
    assert(json_escape("Disconnected"@) =~= "Disconnected"@);
    assert(json_head(v) =~= "{\"text\":"@ + spec_json_string("Disconnected"@));
    assert(json_component(v) =~= "{\"text\":\"Disconnected\"}"@);
}

} // verus!
