use vstd::prelude::*;
use crate::component_view::{
    ComponentView, component_view, components_view, lemma_components_view, lemma_view_fields,
    opt_string_view,
};
use crate::json::{json_string, spec_json_string};
use crate::nbt_value::{NbtValue, NbtView, nbt_view, nbt_views, nbt_entries_view, push_entry, push_item};

verus! {

broadcast use lemma_view_fields;

/// A chat text component: some text, its style, and the components that follow it.
#[derive(Debug, PartialEq)]
pub struct Component {
    pub text: String,
    pub color: Option<String>,
    pub bold: bool,
    pub italic: bool,
    pub underlined: bool,
    pub strikethrough: bool,
    pub obfuscated: bool,
    pub extra: Vec<Component>,
}

/// Whether a flag is unset, which is when serialization leaves it out.
pub fn is_false(b: &bool) -> (r: bool)
    ensures
        r == !*b,
{
    !*b
}

/// Whether the string `s` reads exactly `lit`.
pub fn string_is(s: &String, lit: &str) -> (r: bool)
    ensures
        r == (s@ == lit@),
{
    *s == lit.to_owned()
}

/// Whether the string slice `s` reads exactly `lit`.
pub fn str_is(s: &str, lit: &str) -> (r: bool)
    ensures
        r == (s@ == lit@),
{
    s.to_owned() == lit.to_owned()
}

/// The legacy formatting code letter of a named color; unknown names give white.
#[verifier::opaque]
pub open spec fn color_code(name: Seq<char>) -> char {
    if name == "black"@ { '0' }
    else if name == "dark_blue"@ { '1' }
    else if name == "dark_green"@ { '2' }
    else if name == "dark_aqua"@ { '3' }
    else if name == "dark_red"@ { '4' }
    else if name == "dark_purple"@ { '5' }
    else if name == "gold"@ { '6' }
    else if name == "gray"@ { '7' }
    else if name == "dark_gray"@ { '8' }
    else if name == "blue"@ { '9' }
    else if name == "green"@ { 'a' }
    else if name == "aqua"@ { 'b' }
    else if name == "red"@ { 'c' }
    else if name == "light_purple"@ { 'd' }
    else if name == "yellow"@ { 'e' }
    else { 'f' }
}

/// A legacy formatting code: the section sign followed by `code`.
pub open spec fn legacy_code(code: char) -> Seq<char> {
    seq!['§', code]
}

/// The legacy codes for `flag` when it is set, nothing otherwise.
pub open spec fn flag_code(flag: bool, code: char) -> Seq<char> {
    if flag { legacy_code(code) } else { Seq::empty() }
}

/// The legacy code for an optional color.
pub open spec fn color_codes(color: Option<Seq<char>>) -> Seq<char> {
    match color {
        Some(c) => legacy_code(color_code(c)),
        None => Seq::empty(),
    }
}

/// The legacy codes for the style of a component: color, then bold, italic,
/// underlined, strikethrough and obfuscated.
pub open spec fn style_codes(v: ComponentView) -> Seq<char> {
    color_codes(v.color) + flag_code(v.bold, 'l') + flag_code(v.italic, 'o') + flag_code(v.underlined, 'n')
        + flag_code(v.strikethrough, 'm') + flag_code(v.obfuscated, 'k')
}

/// The reset code that starts the legacy text of every component but the root.
pub open spec fn reset_codes(is_root: bool) -> Seq<char> {
    if is_root { Seq::empty() } else { legacy_code('r') }
}

/// Legacy text of a component: a reset code unless it is the root, its
/// style codes, its text, then the legacy text of each extra component.
pub open spec fn legacy_text(v: ComponentView, is_root: bool) -> Seq<char>
    decreases v,
{
    reset_codes(is_root) + style_codes(v) + v.text + legacy_extra(v.extra)
}

/// Legacy texts of non-root components, one after the other.
pub open spec fn legacy_extra(vs: Seq<ComponentView>) -> Seq<char>
    decreases vs,
{
    if vs.len() == 0 {
        Seq::empty()
    } else {
        legacy_extra(vs.drop_last()) + legacy_text(vs.last(), false)
    }
}

/// `text` when `flag` is set, nothing otherwise.
pub open spec fn json_flag(flag: bool, text: Seq<char>) -> Seq<char> {
    if flag { text } else { Seq::empty() }
}

/// The JSON member for an optional color.
pub open spec fn json_color(color: Option<Seq<char>>) -> Seq<char> {
    match color {
        Some(c) => ",\"color\":"@ + spec_json_string(c),
        None => Seq::empty(),
    }
}

/// The JSON members of a component before its extra components: the text,
/// the color if any, and each style flag that is set.
pub open spec fn json_head(v: ComponentView) -> Seq<char> {
    "{\"text\":"@ + spec_json_string(v.text) + json_color(v.color)
        + json_flag(v.bold, ",\"bold\":true"@) + json_flag(v.italic, ",\"italic\":true"@)
        + json_flag(v.underlined, ",\"underlined\":true"@)
        + json_flag(v.strikethrough, ",\"strikethrough\":true"@)
        + json_flag(v.obfuscated, ",\"obfuscated\":true"@)
}

/// A component as a compact JSON object: members in declaration order,
/// `color` omitted when absent, flags omitted when false, `extra` omitted
/// when empty.
pub open spec fn json_component(v: ComponentView) -> Seq<char>
    decreases v,
{
    json_head(v) + (if v.extra.len() == 0 {
        Seq::empty()
    } else {
        ",\"extra\":["@ + json_list(v.extra) + "]"@
    }) + "}"@
}

/// Components as JSON objects separated by commas.
pub open spec fn json_list(vs: Seq<ComponentView>) -> Seq<char>
    decreases vs,
{
    if vs.len() == 0 {
        Seq::empty()
    } else if vs.len() == 1 {
        json_component(vs[0])
    } else {
        json_list(vs.drop_last()) + ","@ + json_component(vs.last())
    }
}

/// The NBT member for a style flag: a byte 1 under `key` when set, nothing otherwise.
pub open spec fn nbt_flag(flag: bool, key: Seq<char>) -> Seq<(Seq<char>, NbtView)> {
    if flag { seq![(key, NbtView::Byte(1))] } else { Seq::empty() }
}

/// The NBT members of a component before its extra components.
pub open spec fn nbt_head(v: ComponentView) -> Seq<(Seq<char>, NbtView)> {
    seq![("text"@, NbtView::Str(v.text))] + (match v.color {
        Some(c) => seq![("color"@, NbtView::Str(c))],
        None => Seq::empty(),
    }) + nbt_flag(v.bold, "bold"@) + nbt_flag(v.italic, "italic"@) + nbt_flag(v.underlined, "underlined"@)
        + nbt_flag(v.strikethrough, "strikethrough"@) + nbt_flag(v.obfuscated, "obfuscated"@)
}

/// A component as an NBT compound, with the same members as its JSON form.
pub open spec fn nbt_component(v: ComponentView) -> NbtView
    decreases v,
{
    NbtView::Compound(nbt_head(v) + (if v.extra.len() == 0 {
        Seq::empty()
    } else {
        seq![("extra"@, NbtView::List(nbt_components(v.extra)))]
    }))
}

/// Components as NBT compounds.
pub open spec fn nbt_components(vs: Seq<ComponentView>) -> Seq<NbtView>
    decreases vs,
{
    if vs.len() == 0 {
        Seq::empty()
    } else {
        nbt_components(vs.drop_last()).push(nbt_component(vs.last()))
    }
}

/// The legacy code (section sign and letter) of a named color.
fn color_code_str(color: &String) -> (r: &'static str)
    ensures
        r@ == legacy_code(color_code(color@)),
{
    reveal(color_code);
    if string_is(color, "black") { proof { reveal_strlit("§0"); } "§0" }
    else if string_is(color, "dark_blue") { proof { reveal_strlit("§1"); } "§1" }
    else if string_is(color, "dark_green") { proof { reveal_strlit("§2"); } "§2" }
    else if string_is(color, "dark_aqua") { proof { reveal_strlit("§3"); } "§3" }
    else if string_is(color, "dark_red") { proof { reveal_strlit("§4"); } "§4" }
    else if string_is(color, "dark_purple") { proof { reveal_strlit("§5"); } "§5" }
    else if string_is(color, "gold") { proof { reveal_strlit("§6"); } "§6" }
    else if string_is(color, "gray") { proof { reveal_strlit("§7"); } "§7" }
    else if string_is(color, "dark_gray") { proof { reveal_strlit("§8"); } "§8" }
    else if string_is(color, "blue") { proof { reveal_strlit("§9"); } "§9" }
    else if string_is(color, "green") { proof { reveal_strlit("§a"); } "§a" }
    else if string_is(color, "aqua") { proof { reveal_strlit("§b"); } "§b" }
    else if string_is(color, "red") { proof { reveal_strlit("§c"); } "§c" }
    else if string_is(color, "light_purple") { proof { reveal_strlit("§d"); } "§d" }
    else if string_is(color, "yellow") { proof { reveal_strlit("§e"); } "§e" }
    else { proof { reveal_strlit("§f"); } "§f" }
}

/// The reset code, unless for the root.
fn reset_code_str(is_root: bool) -> (r: &'static str)
    ensures
        r@ == reset_codes(is_root),
{
    if is_root {
        proof {
            reveal_strlit("");
        }
        ""
    } else {
        proof {
            reveal_strlit("§r");
        }
        "§r"
    }
}

/// The legacy code of an optional color.
fn color_part_str(color: &Option<String>) -> (r: &'static str)
    ensures
        r@ == color_codes(opt_string_view(*color)),
{
    match color {
        Some(c) => color_code_str(c),
        None => {
            proof {
                reveal_strlit("");
            }
            ""
        },
    }
}

/// Appends the legacy code for a set flag.
fn push_flag(s: &mut String, flag: bool, code: &str, letter: Ghost<char>)
    requires
        code@ == legacy_code(letter@),
    ensures
        final(s)@ == old(s)@ + flag_code(flag, letter@),
{
    if flag {
        s.append(code);
    } else {
        assert(old(s)@ + flag_code(flag, letter@) =~= old(s)@);
    }
}

impl Clone for Component {
    fn clone(&self) -> (r: Self)
        ensures
            r@ == self@,
    {
        self.duplicate()
    }
}

impl Default for Component {
    /// Empty text, no color, no style, no extra.
    fn default() -> (r: Self)
        ensures
            r@ == Component::spec_default(),
    {
        let r = Component {
            text: String::new(),
            color: None,
            bold: false,
            italic: false,
            underlined: false,
            strikethrough: false,
            obfuscated: false,
            extra: Vec::new(),
        };
        assert(r@ =~= Component::spec_default());
        r
    }
}

impl Component {
    /// The default component: empty text, no color, no style, no extra.
    pub open spec fn spec_default() -> ComponentView {
        ComponentView {
            text: Seq::empty(),
            color: None,
            bold: false,
            italic: false,
            underlined: false,
            strikethrough: false,
            obfuscated: false,
            extra: Seq::empty(),
        }
    }

    /// A component holding `content` and nothing else.
    pub fn new(content: &str) -> (r: Self)
        ensures
            r@ == (ComponentView { text: content@, ..Self::spec_default() }),
    {
        let r = Component {
            text: content.to_owned(),
            color: None,
            bold: false,
            italic: false,
            underlined: false,
            strikethrough: false,
            obfuscated: false,
            extra: Vec::new(),
        };
        assert(r@ =~= (ComponentView { text: content@, ..Self::spec_default() }));
        r
    }

    /// A copy of this component, extra components included.
    pub fn duplicate(&self) -> (r: Self)
        ensures
            r@ == self@,
        decreases self,
    {
        let mut extra: Vec<Component> = Vec::new();
        let ghost views = self@.extra;
        proof {
            lemma_components_view(self.extra@);
            assert(components_view(extra@) =~= views.take(0));
        }
        let n = self.extra.len();
        let mut i: usize = 0;
        while i < n
            invariant
                n == self.extra.len(),
                i <= n,
                views == self@.extra,
                views.len() == n,
                forall|j: int| 0 <= j < n ==> #[trigger] views[j] == component_view(self.extra@[j]),
                components_view(extra@) == views.take(i as int),
            decreases n - i,
        {
            let c = self.extra[i].duplicate();
            let ghost old_extra = extra@;
            extra.push(c);
            proof {
                assert(extra@.drop_last() =~= old_extra);
                assert(views.take(i as int + 1) =~= views.take(i as int).push(views[i as int]));
            }
            i = i + 1;
        }
        proof {
            assert(views.take(n as int) =~= views);
        }
        let r = Component {
            text: self.text.clone(),
            color: match &self.color {
                Some(c) => Some(c.clone()),
                None => None,
            },
            bold: self.bold,
            italic: self.italic,
            underlined: self.underlined,
            strikethrough: self.strikethrough,
            obfuscated: self.obfuscated,
            extra: extra,
        };
        proof {
            assert(r@ =~= self@);
        }
        r
    }

    /// The reset code (unless root), the style codes and the text of this
    /// component, without its extra components.
    fn legacy_head(&self, is_root: bool) -> (s: String)
        ensures
            s@ == reset_codes(is_root) + style_codes(self@) + self.text@,
    {
        let mut s = String::new();
        s.append(reset_code_str(is_root));
        s.append(color_part_str(&self.color));
        let ghost s1 = s@;
        self.push_style_flags(&mut s);
        let ghost s2 = s@;
        s.append(self.text.as_str());
        proof {
            let v = self@;
            assert(s1 =~= reset_codes(is_root) + color_codes(v.color));
            assert(s2 =~= reset_codes(is_root) + style_codes(v));
        }
        s
    }

    /// Appends the legacy codes of the set style flags.
    fn push_style_flags(&self, s: &mut String)
        ensures
            final(s)@ == old(s)@ + flag_code(self.bold, 'l') + flag_code(self.italic, 'o')
                + flag_code(self.underlined, 'n') + flag_code(self.strikethrough, 'm')
                + flag_code(self.obfuscated, 'k'),
    {
        proof {
            reveal_strlit("§l");
            assert("§l"@ =~= legacy_code('l'));
            reveal_strlit("§o");
            assert("§o"@ =~= legacy_code('o'));
            reveal_strlit("§n");
            assert("§n"@ =~= legacy_code('n'));
            reveal_strlit("§m");
            assert("§m"@ =~= legacy_code('m'));
            reveal_strlit("§k");
            assert("§k"@ =~= legacy_code('k'));
        }
        push_flag(s, self.bold, "§l", Ghost('l'));
        push_flag(s, self.italic, "§o", Ghost('o'));
        push_flag(s, self.underlined, "§n", Ghost('n'));
        push_flag(s, self.strikethrough, "§m", Ghost('m'));
        push_flag(s, self.obfuscated, "§k", Ghost('k'));
        proof {
            assert(s@ =~= old(s)@ + flag_code(self.bold, 'l') + flag_code(self.italic, 'o')
                + flag_code(self.underlined, 'n') + flag_code(self.strikethrough, 'm')
                + flag_code(self.obfuscated, 'k'));
        }
    }

    /// The legacy-formatted text of this component (section-sign codes).
    pub fn to_legacy_impl(&self, is_root: bool) -> (s: String)
        ensures
            s@ == legacy_text(self@, is_root),
        decreases self,
    {
        let mut s = self.legacy_head(is_root);
        let ghost head = s@;
        let ghost views = self@.extra;
        proof {
            lemma_components_view(self.extra@);
            assert(views.take(0) =~= Seq::<ComponentView>::empty());
        }
        let n = self.extra.len();
        let mut i: usize = 0;
        while i < n
            invariant
                n == self.extra.len(),
                i <= n,
                views == self@.extra,
                views.len() == n,
                forall|j: int| 0 <= j < n ==> #[trigger] views[j] == component_view(self.extra@[j]),
                s@ == head + legacy_extra(views.take(i as int)),
            decreases n - i,
        {
            let part = self.extra[i].to_legacy_impl(false);
            s.append(part.as_str());
            proof {
                assert(views.take(i as int + 1).drop_last() =~= views.take(i as int));
                assert(views.take(i as int + 1).last() == views[i as int]);
            }
            i = i + 1;
        }
        proof {
            assert(views.take(n as int) =~= views);
        }
        s
    }

    /// Appends `text` when `flag` is set.
    fn push_json_flag(s: &mut String, flag: bool, text: &str)
        ensures
            final(s)@ == old(s)@ + json_flag(flag, text@),
    {
        if flag {
            s.append(text);
        } else {
            assert(old(s)@ + json_flag(flag, text@) =~= old(s)@);
        }
    }

    /// The JSON members of this component before its extra components.
    fn to_json_head(&self) -> (s: String)
        ensures
            s@ == json_head(self@),
    {
        let mut s = String::new();
        s.append("{\"text\":");
        let text = json_string(self.text.as_str());
        s.append(text.as_str());
        let ghost s1 = s@;
        match &self.color {
            Some(color) => {
                s.append(",\"color\":");
                let c = json_string(color.as_str());
                s.append(c.as_str());
            },
            None => {},
        }
        proof {
            assert(s@ =~= s1 + json_color(opt_string_view(self.color)));
        }
        Self::push_json_flag(&mut s, self.bold, ",\"bold\":true");
        Self::push_json_flag(&mut s, self.italic, ",\"italic\":true");
        Self::push_json_flag(&mut s, self.underlined, ",\"underlined\":true");
        Self::push_json_flag(&mut s, self.strikethrough, ",\"strikethrough\":true");
        Self::push_json_flag(&mut s, self.obfuscated, ",\"obfuscated\":true");
        proof {
            let v = self@;
            assert(v.color == opt_string_view(self.color));
            assert(s@ =~= json_head(v));
        }
        s
    }

    /// This component as compact JSON, in the shape serde writes it.
    pub fn to_json(&self) -> (s: String)
        ensures
            s@ == json_component(self@),
        decreases self,
    {
        let mut s = self.to_json_head();
        let ghost head = s@;
        let ghost views = self@.extra;
        proof {
            lemma_components_view(self.extra@);
        }
        let n = self.extra.len();
        if n > 0 {
            s.append(",\"extra\":[");
            let ghost open_list = s@;
            proof {
                assert(views.take(0) =~= Seq::<ComponentView>::empty());
                assert(s@ =~= open_list + json_list(views.take(0)));
            }
            let mut i: usize = 0;
            while i < n
                invariant
                    n == self.extra.len(),
                    i <= n,
                    views == self@.extra,
                    views.len() == n,
                    forall|j: int| 0 <= j < n ==> #[trigger] views[j] == component_view(self.extra@[j]),
                    s@ == open_list + json_list(views.take(i as int)),
                decreases n - i,
            {
                if i > 0 {
                    s.append(",");
                }
                let part = self.extra[i].to_json();
                s.append(part.as_str());
                proof {
                    let t = views.take(i as int + 1);
                    assert(t.drop_last() =~= views.take(i as int));
                    assert(t.last() == views[i as int]);
                    if i == 0 {
                        assert(t[0] == views[0]);
                        assert(s@ =~= open_list + json_list(t));
                    } else {
                        assert(s@ =~= open_list + json_list(t));
                    }
                }
                i = i + 1;
            }
            proof {
                assert(views.take(n as int) =~= views);
            }
            s.append("]");
        }
        s.append("}");
        proof {
            assert(s@ =~= json_component(self@));
        }
        s
    }

    /// Appends the NBT member of a set flag.
    fn push_nbt_flag(entries: &mut Vec<(String, NbtValue)>, flag: bool, key: &str)
        ensures
            nbt_entries_view(final(entries)@) == nbt_entries_view(old(entries)@) + nbt_flag(flag, key@),
    {
        if flag {
            push_entry(entries, key, NbtValue::Byte(1));
            assert(nbt_entries_view(entries@) =~= nbt_entries_view(old(entries)@) + nbt_flag(flag, key@));
        } else {
            assert(nbt_entries_view(entries@) =~= nbt_entries_view(old(entries)@) + nbt_flag(flag, key@));
        }
    }

    /// The NBT members of this component before its extra components.
    fn to_nbt_head(&self) -> (entries: Vec<(String, NbtValue)>)
        ensures
            nbt_entries_view(entries@) == nbt_head(self@),
    {
        let mut entries: Vec<(String, NbtValue)> = Vec::new();
        proof {
            assert(nbt_entries_view(entries@) =~= Seq::empty());
        }
        push_entry(&mut entries, "text", NbtValue::Str(self.text.clone()));
        let ghost e1 = nbt_entries_view(entries@);
        match &self.color {
            Some(color) => {
                push_entry(&mut entries, "color", NbtValue::Str(color.clone()));
            },
            None => {},
        }
        let ghost e2 = nbt_entries_view(entries@);
        proof {
            assert(e2 =~= e1 + (match opt_string_view(self.color) {
                Some(c) => seq![("color"@, NbtView::Str(c))],
                None => Seq::empty(),
            }));
        }
        Self::push_nbt_flag(&mut entries, self.bold, "bold");
        Self::push_nbt_flag(&mut entries, self.italic, "italic");
        Self::push_nbt_flag(&mut entries, self.underlined, "underlined");
        Self::push_nbt_flag(&mut entries, self.strikethrough, "strikethrough");
        Self::push_nbt_flag(&mut entries, self.obfuscated, "obfuscated");
        proof {
            let v = self@;
            assert(v.color == opt_string_view(self.color));
            assert(nbt_entries_view(entries@) =~= nbt_head(v));
        }
        entries
    }

    /// This component as an NBT compound.
    pub fn to_nbt(&self) -> (r: NbtValue)
        ensures
            r@ == nbt_component(self@),
        decreases self,
    {
        let mut entries = self.to_nbt_head();
        let ghost head = nbt_entries_view(entries@);
        let ghost views = self@.extra;
        proof {
            lemma_components_view(self.extra@);
        }
        let n = self.extra.len();
        if n > 0 {
            let mut items: Vec<NbtValue> = Vec::new();
            proof {
                assert(views.take(0) =~= Seq::<ComponentView>::empty());
                assert(nbt_views(items@) =~= Seq::empty());
            }
            let mut i: usize = 0;
            while i < n
                invariant
                    n == self.extra.len(),
                    i <= n,
                    views == self@.extra,
                    views.len() == n,
                    forall|j: int| 0 <= j < n ==> #[trigger] views[j] == component_view(self.extra@[j]),
                    nbt_views(items@) == nbt_components(views.take(i as int)),
                decreases n - i,
            {
                let part = self.extra[i].to_nbt();
                push_item(&mut items, part);
                proof {
                    assert(views.take(i as int + 1).drop_last() =~= views.take(i as int));
                    assert(views.take(i as int + 1).last() == views[i as int]);
                }
                i = i + 1;
            }
            proof {
                assert(views.take(n as int) =~= views);
            }
            push_entry(&mut entries, "extra", NbtValue::List(items));
        }
        proof {
            assert(nbt_entries_view(entries@) =~= head + (if views.len() == 0 {
                Seq::empty()
            } else {
                seq![("extra"@, NbtView::List(nbt_components(views)))]
            }));
        }
        NbtValue::Compound(entries)
    }

    /// The legacy-formatted text wrapped in a JSON object `{"text":...}`.
    pub fn to_legacy(&self) -> (r: String)
        ensures
            r@ == "{\"text\":"@ + spec_json_string(legacy_text(self@, true)) + "}"@,
    {
        let legacy = self.to_legacy_impl(true);
        let quoted = json_string(legacy.as_str());
        let mut r = String::new();
        r.append("{\"text\":");
        r.append(quoted.as_str());
        r.append("}");
        r
    }
}

/// The style flag number `i` of a component: bold, italic, underlined,
/// strikethrough, obfuscated.
pub open spec fn flag_of(v: ComponentView, i: int) -> bool {
    if i == 0 {
        v.bold
    } else if i == 1 {
        v.italic
    } else if i == 2 {
        v.underlined
    } else if i == 3 {
        v.strikethrough
    } else {
        v.obfuscated
    }
}

/// The name of style flag number `i`.
pub open spec fn flag_key(i: int) -> Seq<char> {
    if i == 0 {
        "bold"@
    } else if i == 1 {
        "italic"@
    } else if i == 2 {
        "underlined"@
    } else if i == 3 {
        "strikethrough"@
    } else {
        "obfuscated"@
    }
}

/// The JSON member written for style flag number `i` when it is set.
pub open spec fn json_flag_member(i: int) -> Seq<char> {
    if i == 0 {
        ",\"bold\":true"@
    } else if i == 1 {
        ",\"italic\":true"@
    } else if i == 2 {
        ",\"underlined\":true"@
    } else if i == 3 {
        ",\"strikethrough\":true"@
    } else {
        ",\"obfuscated\":true"@
    }
}

/// Whether `u` and `v` agree on everything but style flag number `i`.
pub open spec fn differ_only_in_flag(u: ComponentView, v: ComponentView, i: int) -> bool {
    &&& 0 <= i < 5
    &&& u.text == v.text
    &&& u.color == v.color
    &&& u.extra == v.extra
    &&& (i == 0 || u.bold == v.bold)
    &&& (i == 1 || u.italic == v.italic)
    &&& (i == 2 || u.underlined == v.underlined)
    &&& (i == 3 || u.strikethrough == v.strikethrough)
    &&& (i == 4 || u.obfuscated == v.obfuscated)
}

/// `q` followed by a chain of parts, regrouped to the right.
proof fn lemma_regroup0<A>(q: Seq<A>, t: Seq<A>)
    ensures
        q + t == q + t,
{
}

proof fn lemma_regroup1<A>(q: Seq<A>, x: Seq<A>, t: Seq<A>)
    ensures
        (q + x) + t == q + (x + t),
{
    assert((q + x) + t =~= q + (x + t));
}

proof fn lemma_regroup2<A>(q: Seq<A>, x: Seq<A>, y: Seq<A>, t: Seq<A>)
    ensures
        ((q + x) + y) + t == q + ((x + y) + t),
{
    assert(((q + x) + y) + t =~= q + ((x + y) + t));
}

proof fn lemma_regroup3<A>(q: Seq<A>, x: Seq<A>, y: Seq<A>, z: Seq<A>, t: Seq<A>)
    ensures
        (((q + x) + y) + z) + t == q + (((x + y) + z) + t),
{
    assert((((q + x) + y) + z) + t =~= q + (((x + y) + z) + t));
}

proof fn lemma_regroup4<A>(q: Seq<A>, w: Seq<A>, x: Seq<A>, y: Seq<A>, z: Seq<A>, t: Seq<A>)
    ensures
        ((((q + w) + x) + y) + z) + t == q + ((((w + x) + y) + z) + t),
{
    assert(((((q + w) + x) + y) + z) + t =~= q + ((((w + x) + y) + z) + t));
}

/// Each style flag governs its own JSON member and nothing else: setting
/// flag `i` of a component whose flag `i` is unset inserts the member
/// `"<flag>":true` into its JSON and changes nothing more.
pub proof fn law_json_flag_member(u: ComponentView, v: ComponentView, i: int)
    requires
        differ_only_in_flag(u, v, i),
        flag_of(u, i),
        !flag_of(v, i),
    ensures
        exists|p: Seq<char>, s: Seq<char>|
            json_component(v) == p + s && json_component(u) == p + json_flag_member(i) + s,
{
    let a = "{\"text\":"@ + spec_json_string(v.text) + json_color(v.color);
    let f0 = json_flag(v.bold, json_flag_member(0));
    let f1 = json_flag(v.italic, json_flag_member(1));
    let f2 = json_flag(v.underlined, json_flag_member(2));
    let f3 = json_flag(v.strikethrough, json_flag_member(3));
    let f4 = json_flag(v.obfuscated, json_flag_member(4));
    let tail = (if v.extra.len() == 0 {
        Seq::empty()
    } else {
        ",\"extra\":["@ + json_list(v.extra) + "]"@
    }) + "}"@;
    let g0 = json_flag(u.bold, json_flag_member(0));
    let g1 = json_flag(u.italic, json_flag_member(1));
    let g2 = json_flag(u.underlined, json_flag_member(2));
    let g3 = json_flag(u.strikethrough, json_flag_member(3));
    let g4 = json_flag(u.obfuscated, json_flag_member(4));
    assert(json_component(v) == a + f0 + f1 + f2 + f3 + f4 + tail);
    assert(json_component(u) == a + g0 + g1 + g2 + g3 + g4 + tail);
    let m = json_flag_member(i);
    if i == 0 {
        let p = a;
        assert(p + f0 =~= p);
        assert(g0 == m);
        lemma_regroup4(p, f1, f2, f3, f4, tail);
        lemma_regroup4(p + m, f1, f2, f3, f4, tail);
        assert(json_component(v) == p + (f1 + f2 + f3 + f4 + tail));
        assert(json_component(u) == p + m + (f1 + f2 + f3 + f4 + tail));
    } else if i == 1 {
        let p = a + f0;
        assert(p + f1 =~= p);
        assert(g1 == m);
        lemma_regroup3(p, f2, f3, f4, tail);
        lemma_regroup3(p + m, f2, f3, f4, tail);
        assert(json_component(v) == p + (f2 + f3 + f4 + tail));
        assert(json_component(u) == p + m + (f2 + f3 + f4 + tail));
    } else if i == 2 {
        let p = a + f0 + f1;
        assert(p + f2 =~= p);
        assert(g2 == m);
        lemma_regroup2(p, f3, f4, tail);
        lemma_regroup2(p + m, f3, f4, tail);
        assert(json_component(v) == p + (f3 + f4 + tail));
        assert(json_component(u) == p + m + (f3 + f4 + tail));
    } else if i == 3 {
        let p = a + f0 + f1 + f2;
        assert(p + f3 =~= p);
        assert(g3 == m);
        lemma_regroup1(p, f4, tail);
        lemma_regroup1(p + m, f4, tail);
        assert(json_component(v) == p + (f4 + tail));
        assert(json_component(u) == p + m + (f4 + tail));
    } else {
        let p = a + f0 + f1 + f2 + f3;
        assert(p + f4 =~= p);
        assert(g4 == m);
        lemma_regroup0(p, tail);
        lemma_regroup0(p + m, tail);
        assert(json_component(v) == p + (tail));
        assert(json_component(u) == p + m + (tail));
    }
}

/// Each style flag governs its own NBT member and nothing else: setting
/// flag `i` of a component whose flag `i` is unset inserts the member
/// `<flag>: 1b` into its compound and changes nothing more.
pub proof fn law_nbt_flag_member(u: ComponentView, v: ComponentView, i: int)
    requires
        differ_only_in_flag(u, v, i),
        flag_of(u, i),
        !flag_of(v, i),
    ensures
        exists|p: Seq<(Seq<char>, NbtView)>, s: Seq<(Seq<char>, NbtView)>|
            nbt_component(v) == NbtView::Compound(p + s)
                && nbt_component(u) == NbtView::Compound(p + seq![(flag_key(i), NbtView::Byte(1))] + s),
{
    let a = seq![("text"@, NbtView::Str(v.text))] + (match v.color {
        Some(c) => seq![("color"@, NbtView::Str(c))],
        None => Seq::empty(),
    });
    let n0 = nbt_flag(v.bold, flag_key(0));
    let n1 = nbt_flag(v.italic, flag_key(1));
    let n2 = nbt_flag(v.underlined, flag_key(2));
    let n3 = nbt_flag(v.strikethrough, flag_key(3));
    let n4 = nbt_flag(v.obfuscated, flag_key(4));
    let h0 = nbt_flag(u.bold, flag_key(0));
    let h1 = nbt_flag(u.italic, flag_key(1));
    let h2 = nbt_flag(u.underlined, flag_key(2));
    let h3 = nbt_flag(u.strikethrough, flag_key(3));
    let h4 = nbt_flag(u.obfuscated, flag_key(4));
    let tail = if v.extra.len() == 0 {
        Seq::empty()
    } else {
        seq![("extra"@, NbtView::List(nbt_components(v.extra)))]
    };
    assert(nbt_component(v) == NbtView::Compound(nbt_head(v) + tail));
    assert(nbt_component(u) == NbtView::Compound(nbt_head(u) + tail));
    assert(nbt_head(v) == a + n0 + n1 + n2 + n3 + n4);
    assert(nbt_head(u) == a + h0 + h1 + h2 + h3 + h4);
    let m = seq![(flag_key(i), NbtView::Byte(1))];
    if i == 0 {
        let p = a;
        assert(p + n0 =~= p);
        assert(h0 == m);
        lemma_regroup4(p, n1, n2, n3, n4, tail);
        lemma_regroup4(p + m, n1, n2, n3, n4, tail);
        assert(nbt_head(v) + tail == p + (n1 + n2 + n3 + n4 + tail));
        assert(nbt_head(u) + tail == p + m + (n1 + n2 + n3 + n4 + tail));
    } else if i == 1 {
        let p = a + n0;
        assert(p + n1 =~= p);
        assert(h1 == m);
        lemma_regroup3(p, n2, n3, n4, tail);
        lemma_regroup3(p + m, n2, n3, n4, tail);
        assert(nbt_head(v) + tail == p + (n2 + n3 + n4 + tail));
        assert(nbt_head(u) + tail == p + m + (n2 + n3 + n4 + tail));
    } else if i == 2 {
        let p = a + n0 + n1;
        assert(p + n2 =~= p);
        assert(h2 == m);
        lemma_regroup2(p, n3, n4, tail);
        lemma_regroup2(p + m, n3, n4, tail);
        assert(nbt_head(v) + tail == p + (n3 + n4 + tail));
        assert(nbt_head(u) + tail == p + m + (n3 + n4 + tail));
    } else if i == 3 {
        let p = a + n0 + n1 + n2;
        assert(p + n3 =~= p);
        assert(h3 == m);
        lemma_regroup1(p, n4, tail);
        lemma_regroup1(p + m, n4, tail);
        assert(nbt_head(v) + tail == p + (n4 + tail));
        assert(nbt_head(u) + tail == p + m + (n4 + tail));
    } else {
        let p = a + n0 + n1 + n2 + n3;
        assert(p + n4 =~= p);
        assert(h4 == m);
        lemma_regroup0(p, tail);
        lemma_regroup0(p + m, tail);
        assert(nbt_head(v) + tail == p + (tail));
        assert(nbt_head(u) + tail == p + m + (tail));
    }
}

/// The legacy text of a component that is not the root is a reset code
/// followed by exactly what the same component gives as the root: the root
/// position changes nothing else, the extra components at every depth
/// included.
pub proof fn law_legacy_child_is_reset_then_root_text(v: ComponentView)
    ensures
        legacy_text(v, false) == legacy_code('r') + legacy_text(v, true),
{
    assert(legacy_text(v, false) =~= legacy_code('r') + legacy_text(v, true));
}

/// Adding a component at the end of the extra components adds its own
/// legacy text, with all its extra components, at the end of the legacy text.
pub proof fn law_legacy_extra_appended(v: ComponentView, e: ComponentView, is_root: bool)
    ensures
        legacy_text(ComponentView { extra: v.extra.push(e), ..v }, is_root)
            == legacy_text(v, is_root) + legacy_text(e, false),
{
    let w = ComponentView { extra: v.extra.push(e), ..v };
    assert(w.extra.drop_last() =~= v.extra);
    assert(legacy_extra(w.extra) == legacy_extra(v.extra) + legacy_text(e, false));
    assert(legacy_text(w, is_root) =~= legacy_text(v, is_root) + legacy_text(e, false));
}

/// The NBT compounds of components, one for each, in their order.
proof fn lemma_nbt_components_each(vs: Seq<ComponentView>)
    ensures
        nbt_components(vs).len() == vs.len(),
        forall|i: int| 0 <= i < vs.len() ==> #[trigger] nbt_components(vs)[i] == nbt_component(vs[i]),
    decreases vs.len(),
{
    if vs.len() > 0 {
        lemma_nbt_components_each(vs.drop_last());
        assert forall|i: int| 0 <= i < vs.len() implies #[trigger] nbt_components(vs)[i] == nbt_component(vs[i]) by {
            if i < vs.len() - 1 {
                assert(vs.drop_last()[i] == vs[i]);
            }
        }
    }
}

/// The NBT compound of a component with extra components ends with an
/// `extra` list that holds the compound of each extra component, in order;
/// one without extra components has no `extra` member.
pub proof fn law_nbt_extra_in_order(v: ComponentView)
    ensures
        nbt_component(v) is Compound,
        v.extra.len() == 0 ==> forall|j: int| 0 <= j < nbt_component(v)->Compound_0.len()
            ==> (#[trigger] nbt_component(v)->Compound_0[j]).0 != "extra"@,
        v.extra.len() > 0 ==> ({
            let es = nbt_component(v)->Compound_0;
            &&& es.last().0 == "extra"@
            &&& es.last().1 is List
            &&& es.last().1->List_0.len() == v.extra.len()
            &&& forall|i: int| 0 <= i < v.extra.len() ==> #[trigger] es.last().1->List_0[i] == nbt_component(v.extra[i])
        }),
{
    lemma_nbt_components_each(v.extra);
    if v.extra.len() == 0 {
        let es = nbt_component(v)->Compound_0;
        assert(es =~= nbt_head(v));
        lemma_nbt_head_keys(v);
    }
}

/// The keys of the members of a component before its extra components are
/// `text`, `color` and the names of the flags.
proof fn lemma_nbt_head_keys(v: ComponentView)
    ensures
        forall|j: int| 0 <= j < nbt_head(v).len() ==> (#[trigger] nbt_head(v)[j]).0 != "extra"@,
{
    reveal_strlit("extra");
    reveal_strlit("text");
    reveal_strlit("color");
    reveal_strlit("bold");
    reveal_strlit("italic");
    reveal_strlit("underlined");
    reveal_strlit("strikethrough");
    reveal_strlit("obfuscated");
    assert("extra"@.len() == 5 && "extra"@[0] == 'e');
    assert("text"@.len() == 4);
    assert("color"@.len() == 5 && "color"@[0] == 'c');
    assert("bold"@.len() == 4);
    assert("italic"@.len() == 6);
    assert("underlined"@.len() == 10);
    assert("strikethrough"@.len() == 13);
    assert("obfuscated"@.len() == 10);
}

/// One more component in a non-empty list adds a comma and its JSON object
/// at the end of the list's JSON.
pub proof fn law_json_list_appended(vs: Seq<ComponentView>, e: ComponentView)
    requires
        vs.len() > 0,
    ensures
        json_list(vs.push(e)) == json_list(vs) + ","@ + json_component(e),
{
    assert(vs.push(e).drop_last() =~= vs);
}

} // verus!
