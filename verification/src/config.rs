//! The configuration itself: keybinds, colours, layout and modifier, and
//! the calls of the control tool that they stand for.
use crate::colors::{color_calls, default_colors, format_color, Colors};
use crate::invocation::{control, plan, push_text, Invocation, InvocationView};
use crate::layout::{default_layout, spawn_plan, Layout, LayoutView};
use crate::text::{
    decimal, decimal_string, is_blank, lemma_tokens_blank, texts, tokenize, tokens,
};
use crate::{spawn, spawn_call};
use vstd::arithmetic::power::pow;
use vstd::arithmetic::power2::{lemma2_to64, lemma_pow2_unfold, pow2};
use vstd::prelude::*;

verus! {

/// How many tags the tag keybinds cover: the keys `1` to `9`.
pub const TAG_COUNT: u32 = 9;

/// Why a configuration cannot be turned into calls.
#[derive(Debug, Clone, Copy, PartialEq, Eq, Structural)]
pub enum ConfigError {
    /// A keybind's command holds no word.
    EmptyCommand,
    /// The keyboard settings name no layout.
    MissingLayout,
}

/// One of the three buttons of the pointer that can carry a command.
#[derive(Debug, Clone, Copy, PartialEq, Eq, Structural)]
pub enum MouseButton {
    Left,
    Right,
    Middle,
}

/// A modifier, a key and the command that the two start.
#[derive(Debug, Clone, PartialEq, Eq)]
pub struct Keybind {
    modifier: String,
    keymap: String,
    command: String,
}

/// What a [`Keybind`] holds, as text.
pub struct KeybindView {
    pub modifier: Seq<char>,
    pub keymap: Seq<char>,
    pub command: Seq<char>,
}

impl View for Keybind {
    type V = KeybindView;

    closed spec fn view(&self) -> KeybindView {
        KeybindView { modifier: self.modifier@, keymap: self.keymap@, command: self.command@ }
    }
}

impl Keybind {
    /// The modifier that was current when the keybind was made.
    pub fn modifier(&self) -> (text: &str)
        ensures
            text@ == self@.modifier,
    {
        self.modifier.as_str()
    }

    /// The key's label.
    pub fn keymap(&self) -> (text: &str)
        ensures
            text@ == self@.keymap,
    {
        self.keymap.as_str()
    }

    /// The command, as it was given.
    pub fn command(&self) -> (text: &str)
        ensures
            text@ == self@.command,
    {
        self.command.as_str()
    }
}

/// The settings of the keyboard layout. Only `layout` is mandatory.
pub struct KeyboardLayout<T> {
    pub rules: Option<T>,
    pub model: Option<T>,
    pub variant: Option<T>,
    pub options: Option<T>,
    pub layout: Option<T>,
}

/// A configuration under construction, and the calls issued for it so
/// far.
#[derive(Debug)]
pub struct Config {
    keybinds: Vec<Keybind>,
    colors: Colors,
    layout: Layout,
    modifier: String,
    colors_on_apply: bool,
    issued: Vec<Invocation>,
}

/// What a [`Config`] holds.
pub struct ConfigView {
    /// The keybinds, in the order in which they were added.
    pub keybinds: Seq<KeybindView>,
    pub colors: Colors,
    pub layout: LayoutView,
    /// The modifier that the next keybind gets.
    pub modifier: Seq<char>,
    /// Whether `apply` sets the colours too.
    pub colors_on_apply: bool,
    /// The calls issued so far and not yet taken, the oldest first.
    pub issued: Seq<InvocationView>,
}

impl View for Config {
    type V = ConfigView;

    closed spec fn view(&self) -> ConfigView {
        ConfigView {
            keybinds: self.keybinds@.map_values(|keybind: Keybind| keybind@),
            colors: self.colors,
            layout: self.layout@,
            modifier: self.modifier@,
            colors_on_apply: self.colors_on_apply,
            issued: plan(self.issued@),
        }
    }
}

/// `config` with one more keybind, made of the current modifier, `key`
/// and `command`.
pub open spec fn with_keybind(config: ConfigView, key: Seq<char>, command: Seq<char>) -> ConfigView {
    ConfigView {
        keybinds: config.keybinds.push(
            KeybindView { modifier: config.modifier, keymap: key, command },
        ),
        ..config
    }
}

/// `config` with `modifier` as the modifier that the next keybind gets.
pub open spec fn with_modifier(config: ConfigView, modifier: Seq<char>) -> ConfigView {
    ConfigView { modifier, ..config }
}

/// The key and the command of each pair, as text.
pub open spec fn pairs_of(pairs: Seq<[&str; 2]>) -> Seq<(Seq<char>, Seq<char>)> {
    pairs.map_values(|pair: [&str; 2]| (pair[0]@, pair[1]@))
}

/// `config` with one more keybind for each pair of a key and a command,
/// in the order of the pairs, all with the current modifier.
pub open spec fn with_keybinds(config: ConfigView, pairs: Seq<(Seq<char>, Seq<char>)>) -> ConfigView {
    ConfigView {
        keybinds: config.keybinds + Seq::new(
            pairs.len(),
            |i: int|
                KeybindView { modifier: config.modifier, keymap: pairs[i].0, command: pairs[i].1 },
        ),
        ..config
    }
}

/// Keybinds set in bulk come after those that were there, as many as
/// there are pairs and in their order, each with the modifier of the
/// time; nothing else changes.
pub proof fn lemma_with_keybinds_appends(config: ConfigView, pairs: Seq<(Seq<char>, Seq<char>)>)
    ensures
        with_keybinds(config, pairs).keybinds.len() == config.keybinds.len() + pairs.len(),
        with_keybinds(config, pairs).keybinds.take(config.keybinds.len() as int)
            == config.keybinds,
        forall|i: int|
            0 <= i < pairs.len() ==> #[trigger] with_keybinds(
                config,
                pairs,
            ).keybinds[config.keybinds.len() + i] == (KeybindView {
                modifier: config.modifier,
                keymap: pairs[i].0,
                command: pairs[i].1,
            }),
        with_keybinds(config, pairs) == (ConfigView {
            keybinds: with_keybinds(config, pairs).keybinds,
            ..config
        }),
{
    assert(with_keybinds(config, pairs).keybinds.take(config.keybinds.len() as int)
        =~= config.keybinds);
}

/// To set keybinds in bulk is to set them one by one, in the order of
/// the pairs.
pub proof fn lemma_with_keybinds_repeats(
    config: ConfigView,
    pairs: Seq<(Seq<char>, Seq<char>)>,
    key: Seq<char>,
    command: Seq<char>,
)
    ensures
        with_keybinds(config, Seq::empty()) == config,
        with_keybinds(config, pairs.push((key, command))) == with_keybind(
            with_keybinds(config, pairs),
            key,
            command,
        ),
{
    assert(with_keybinds(config, Seq::empty()).keybinds =~= config.keybinds);
    assert(with_keybinds(config, pairs.push((key, command))).keybinds =~= with_keybind(
        with_keybinds(config, pairs),
        key,
        command,
    ).keybinds);
}

/// A new modifier changes no keybind that is there, and those made
/// later leave them as they are too.
pub proof fn lemma_modifier_keeps_keybinds(
    config: ConfigView,
    modifier: Seq<char>,
    pairs: Seq<(Seq<char>, Seq<char>)>,
)
    ensures
        with_modifier(config, modifier).keybinds == config.keybinds,
        with_keybinds(with_modifier(config, modifier), pairs).keybinds.take(
            config.keybinds.len() as int,
        ) == config.keybinds,
{
    lemma_with_keybinds_appends(with_modifier(config, modifier), pairs);
}

/// The bitmask that selects the tag with the index `index` alone.
pub open spec fn tag_mask(index: nat) -> nat {
    pow2(index)
}

/// The keybind that shows the tag with the index `index`: under
/// `modifier`, the key is the tag's number, one more than its index.
pub open spec fn focus_tag_keybind(modifier: Seq<char>, index: nat) -> KeybindView {
    KeybindView {
        modifier,
        keymap: decimal(index + 1),
        command: "set-focused-tags "@ + decimal(tag_mask(index)),
    }
}

/// The keybind that moves the focused view to the tag with the index
/// `index`: under `modifier`, on the same key and with the same bitmask
/// as [`focus_tag_keybind`].
pub open spec fn view_tag_keybind(modifier: Seq<char>, index: nat) -> KeybindView {
    KeybindView {
        modifier,
        keymap: decimal(index + 1),
        command: "set-view-tags "@ + decimal(tag_mask(index)),
    }
}

/// The keybinds of the first `count` tags: for each tag, from the lowest
/// on, the one that shows it under `modifier`, then the one that moves a
/// view to it under `switch_modifier`.
pub open spec fn tag_keybinds(
    modifier: Seq<char>,
    switch_modifier: Seq<char>,
    count: nat,
) -> Seq<KeybindView> {
    Seq::new(
        2 * count,
        |j: int|
            if j % 2 == 0 {
                focus_tag_keybind(modifier, (j / 2) as nat)
            } else {
                view_tag_keybind(switch_modifier, (j / 2) as nat)
            },
    )
}

/// The call that registers `keybind`: the verb `map`, the mode `normal`,
/// the modifier, the key, then the words of the command.
pub open spec fn dispatch(keybind: KeybindView) -> InvocationView {
    control(
        seq!["map"@, "normal"@, keybind.modifier, keybind.keymap] + tokens(keybind.command),
    )
}

/// Whether `keybind` names an action: its command holds a word.
pub open spec fn has_action(keybind: KeybindView) -> bool {
    !is_blank(keybind.command)
}

/// The name by which the control tool knows `button`.
pub open spec fn button_name(button: MouseButton) -> Seq<char> {
    match button {
        MouseButton::Left => "BTN_LEFT"@,
        MouseButton::Right => "BTN_RIGHT"@,
        MouseButton::Middle => "BTN_MIDDLE"@,
    }
}

/// The call that binds `command` to `button` under `modifier`. The
/// command is one argument, whatever it holds.
pub open spec fn pointer_call(
    modifier: Seq<char>,
    button: MouseButton,
    command: Seq<char>,
) -> InvocationView {
    control(seq!["map-pointer"@, "normal"@, modifier, button_name(button), command])
}

/// The call for `button`, where a command is given for it.
pub open spec fn pointer_calls(
    modifier: Seq<char>,
    button: MouseButton,
    command: Option<&str>,
) -> Seq<InvocationView> {
    match command {
        Some(text) => seq![pointer_call(modifier, button, text@)],
        None => Seq::empty(),
    }
}

/// The call that sets the rate and the delay of key repetition.
pub open spec fn repeat_call(rate: u32, delay: u32) -> InvocationView {
    control(seq!["set-repeat"@, decimal(rate as nat), decimal(delay as nat)])
}

/// The text of a setting, or nothing where it is not given.
pub open spec fn setting(value: Option<&str>) -> Seq<char> {
    match value {
        Some(text) => text@,
        None => Seq::empty(),
    }
}

/// The call that sets the keyboard layout. A setting that is not given
/// is handed over as an empty argument.
pub open spec fn keyboard_call(layout: KeyboardLayout<&str>) -> InvocationView
    recommends
        layout.layout is Some,
{
    control(
        seq![
            "keyboard-layout"@,
            "-rules"@,
            setting(layout.rules),
            "-model"@,
            setting(layout.model),
            "-variant"@,
            setting(layout.variant),
            "-options"@,
            setting(layout.options),
            setting(layout.layout),
        ],
    )
}

/// The call that binds `command`, sent to the layout generator
/// `generator`, to `key` under `modifier`. The command is one argument,
/// whatever it holds.
pub open spec fn layout_keybind_call(
    modifier: Seq<char>,
    generator: Seq<char>,
    key: Seq<char>,
    command: Seq<char>,
) -> InvocationView {
    control(seq!["map"@, "normal"@, modifier, key, "send-layout-cmd"@, generator, command])
}

/// How many keybinds stand before the first one that names no action.
pub open spec fn ready(keybinds: Seq<KeybindView>) -> nat
    decreases keybinds.len(),
{
    if keybinds.len() == 0 || !has_action(keybinds[0]) {
        0
    } else {
        1 + ready(keybinds.drop_first())
    }
}

/// The calls that `apply` issues for `config`: one for each keybind, in
/// the order in which they were added, up to the first that names no
/// action. Where every keybind names one, the colours follow if the
/// configuration asks for them, and then the layout.
pub open spec fn apply_calls(config: ConfigView) -> Seq<InvocationView> {
    let reached = ready(config.keybinds) as int;
    let registered = config.keybinds.take(reached).map_values(
        |keybind: KeybindView| dispatch(keybind),
    );
    if reached < config.keybinds.len() {
        registered
    } else if config.colors_on_apply {
        registered + color_calls(config.colors) + spawn_plan(config.layout)
    } else {
        registered + spawn_plan(config.layout)
    }
}

/// Every keybind before the one that [`ready`] points at names an
/// action, and that one names none; so [`ready`] reaches the end exactly
/// where every keybind names an action.
pub proof fn lemma_ready_bounds(keybinds: Seq<KeybindView>)
    ensures
        ready(keybinds) <= keybinds.len(),
        forall|k: int| 0 <= k < ready(keybinds) ==> has_action(#[trigger] keybinds[k]),
        ready(keybinds) < keybinds.len() ==> !has_action(keybinds[ready(keybinds) as int]),
        ready(keybinds) == keybinds.len() <==> forall|k: int|
            0 <= k < keybinds.len() ==> has_action(#[trigger] keybinds[k]),
    decreases keybinds.len(),
{
    if keybinds.len() > 0 && has_action(keybinds[0]) {
        let rest = keybinds.drop_first();
        lemma_ready_bounds(rest);
        assert forall|k: int| 0 <= k < ready(keybinds) implies has_action(
            #[trigger] keybinds[k],
        ) by {
            if k > 0 {
                assert(keybinds[k] == rest[k - 1]);
            }
        }
        if ready(keybinds) < keybinds.len() {
            assert(keybinds[ready(keybinds) as int] == rest[ready(rest) as int]);
        }
    }
}

/// A run of `count` keybinds that all name an action, and that ends at
/// one that names none or at the end of `keybinds`, is the run that
/// [`ready`] counts.
pub proof fn lemma_ready_is(keybinds: Seq<KeybindView>, count: int)
    requires
        0 <= count <= keybinds.len(),
        forall|k: int| 0 <= k < count ==> has_action(#[trigger] keybinds[k]),
        count < keybinds.len() ==> !has_action(keybinds[count]),
    ensures
        ready(keybinds) == count,
    decreases count,
{
    if count > 0 {
        let rest = keybinds.drop_first();
        assert forall|k: int| 0 <= k < count - 1 implies has_action(#[trigger] rest[k]) by {
            assert(rest[k] == keybinds[k + 1]);
        }
        lemma_ready_is(rest, count - 1);
    }
}

/// The words of a keybind's command, in their order and each as it
/// stands. A command that is empty or holds nothing but whitespace is
/// refused.
pub fn command_tokens(command: &str) -> (outcome: Result<Vec<String>, ConfigError>)
    ensures
        outcome is Err <==> is_blank(command@),
        outcome matches Ok(words) ==> texts(words@) == tokens(command@) && words@.len() > 0,
        outcome matches Err(error) ==> error == ConfigError::EmptyCommand,
{
    proof {
        lemma_tokens_blank(command@);
    }
    let words = tokenize(command);
    if words.len() == 0 {
        Err(ConfigError::EmptyCommand)
    } else {
        Ok(words)
    }
}

/// The tags get two keybinds each. Those of the tag with the index
/// `index` stand side by side, on the key of the tag's number and with
/// the bitmask two to the power of `index`: first the one that shows the
/// tag, then the one that moves a view to it.
pub proof fn lemma_tag_keybinds(
    modifier: Seq<char>,
    switch_modifier: Seq<char>,
    count: nat,
    index: nat,
)
    requires
        index < count,
    ensures
        tag_keybinds(modifier, switch_modifier, count).len() == 2 * count,
        tag_keybinds(modifier, switch_modifier, count)[2 * (index as int)] == (KeybindView {
            modifier,
            keymap: decimal(index + 1),
            command: "set-focused-tags "@ + decimal(pow(2, index) as nat),
        }),
        tag_keybinds(modifier, switch_modifier, count)[2 * (index as int) + 1] == (KeybindView {
            modifier: switch_modifier,
            keymap: decimal(index + 1),
            command: "set-view-tags "@ + decimal(pow(2, index) as nat),
        }),
{
}

/// The call that sets the keyboard layout, unless the settings name no
/// layout.
pub fn keyboard_layout_call(layout: &KeyboardLayout<&str>) -> (outcome: Result<
    Invocation,
    ConfigError,
>)
    ensures
        outcome is Ok <==> layout.layout is Some,
        outcome matches Ok(call) ==> call@ == keyboard_call(*layout),
        outcome matches Err(error) ==> error == ConfigError::MissingLayout,
{
    proof {
        reveal_strlit("");
    }
    let base = match layout.layout {
        Some(base) => base,
        None => {
            return Err(ConfigError::MissingLayout);
        },
    };
    let rules = layout.rules.unwrap_or("");
    let model = layout.model.unwrap_or("");
    let variant = layout.variant.unwrap_or("");
    let options = layout.options.unwrap_or("");
    let mut args: Vec<String> = Vec::new();
    push_text(&mut args, "keyboard-layout");
    push_text(&mut args, "-rules");
    push_text(&mut args, rules);
    push_text(&mut args, "-model");
    push_text(&mut args, model);
    push_text(&mut args, "-variant");
    push_text(&mut args, variant);
    push_text(&mut args, "-options");
    push_text(&mut args, options);
    push_text(&mut args, base);
    assert(rules@ =~= setting(layout.rules));
    assert(model@ =~= setting(layout.model));
    assert(variant@ =~= setting(layout.variant));
    assert(options@ =~= setting(layout.options));
    assert(texts(args@) =~= keyboard_call(*layout).args);
    Ok(Invocation::control(args))
}

impl Default for Config {
    /// No keybinds, the default colours and layout, the modifier `Super`;
    /// `apply` leaves the colours alone, and nothing is issued yet.
    fn default() -> (config: Self)
        ensures
            config@.keybinds.len() == 0,
            config@.colors == default_colors(),
            config@.layout == default_layout(),
            config@.modifier == "Super"@,
            !config@.colors_on_apply,
            config@.issued.len() == 0,
    {
        Config {
            keybinds: Vec::new(),
            colors: Colors::default(),
            layout: Layout::default(),
            modifier: String::from_str("Super"),
            colors_on_apply: false,
            issued: Vec::new(),
        }
    }
}

impl Config {
    /// Owned copies of the two strings of each pair.
    fn serialize_to_owned(&self, arr: &Vec<[&str; 2]>) -> (owned: Vec<Vec<String>>)
        ensures
            owned@.len() == arr@.len(),
            forall|i: int|
                0 <= i < arr@.len() ==> (#[trigger] owned@[i])@.len() == 2 && owned@[i]@[0]@
                    == arr@[i][0]@ && owned@[i]@[1]@ == arr@[i][1]@,
    {
        let mut owned: Vec<Vec<String>> = Vec::new();
        let mut i: usize = 0;
        while i < arr.len()
            invariant
                i <= arr@.len(),
                owned@.len() == i,
                forall|k: int|
                    0 <= k < i ==> (#[trigger] owned@[k])@.len() == 2 && owned@[k]@[0]@
                        == arr@[k][0]@ && owned@[k]@[1]@ == arr@[k][1]@,
            decreases arr@.len() - i,
        {
            let pair = &arr[i];
            let mut entry: Vec<String> = Vec::new();
            entry.push(String::from_str(pair[0]));
            entry.push(String::from_str(pair[1]));
            owned.push(entry);
            i += 1;
        }
        owned
    }

    /// Appends one keybind for each pair of a key and a command, in the
    /// order of the pairs, all with the current modifier.
    pub fn set_keybinds(&mut self, keybinds: Vec<[&str; 2]>) -> (owner: &mut Self)
        ensures
            owner@ == with_keybinds(old(self)@, pairs_of(keybinds@)),
            *final(self) == *final(owner),
    {
        let owned = self.serialize_to_owned(&keybinds);
        let ghost pairs = pairs_of(keybinds@);
        let mut i: usize = 0;
        assert(self@ == with_keybinds(old(self)@, pairs.take(0))) by {
            assert(with_keybinds(old(self)@, pairs.take(0)).keybinds =~= old(self)@.keybinds);
        }
        while i < owned.len()
            invariant
                i <= owned@.len(),
                owned@.len() == keybinds@.len(),
                pairs == pairs_of(keybinds@),
                forall|k: int|
                    0 <= k < keybinds@.len() ==> (#[trigger] owned@[k])@.len() == 2
                        && owned@[k]@[0]@ == keybinds@[k][0]@ && owned@[k]@[1]@
                        == keybinds@[k][1]@,
                self@ == with_keybinds(old(self)@, pairs.take(i as int)),
            decreases owned@.len() - i,
        {
            let entry = &owned[i];
            self.set_keybind(entry[0].as_str(), entry[1].as_str());
            proof {
                assert(pairs[i as int] == (keybinds@[i as int][0]@, keybinds@[i as int][1]@));
                assert(self@.keybinds =~= with_keybinds(
                    old(self)@,
                    pairs.take(i + 1),
                ).keybinds);
            }
            i += 1;
        }
        assert(pairs.take(i as int) =~= pairs);
        self
    }

    /// Appends one keybind for `keys`, with the current modifier.
    pub fn set_keybind(&mut self, keys: &str, command: &str) -> (owner: &mut Self)
        ensures
            owner@ == with_keybind(old(self)@, keys@, command@),
            *final(self) == *final(owner),
    {
        let keybind = Keybind {
            modifier: self.modifier.clone(),
            keymap: String::from_str(keys),
            command: String::from_str(command),
        };
        self.keybinds.push(keybind);
        assert(self@.keybinds =~= old(self)@.keybinds.push(keybind@));
        self
    }

    /// Replaces the modifier. Keybinds made before keep theirs.
    pub fn change_super(&mut self, key: &str) -> (owner: &mut Self)
        ensures
            owner@ == with_modifier(old(self)@, key@),
            *final(self) == *final(owner),
    {
        self.modifier = String::from_str(key);
        self
    }

    /// Appends the keybinds of the tags 1 to 9: to show a tag under
    /// `modifier`, to move a view to it under `switch_modifier`.
    pub fn set_tags(&mut self, modifier: &str, switch_modifier: &str) -> (owner: &mut Self)
        ensures
            owner@ == (ConfigView {
                keybinds: old(self)@.keybinds + tag_keybinds(
                    modifier@,
                    switch_modifier@,
                    TAG_COUNT as nat,
                ),
                ..old(self)@
            }),
            *final(self) == *final(owner),
    {
        let mut index: u32 = 0;
        let mut mask: u32 = 1;
        proof {
            lemma2_to64();
            assert(self@.keybinds =~= old(self)@.keybinds + tag_keybinds(
                modifier@,
                switch_modifier@,
                0,
            ));
        }
        while index < TAG_COUNT
            invariant
                index <= TAG_COUNT,
                mask == tag_mask(index as nat),
                mask <= 512,
                self@ == (ConfigView {
                    keybinds: old(self)@.keybinds + tag_keybinds(
                        modifier@,
                        switch_modifier@,
                        index as nat,
                    ),
                    ..old(self)@
                }),
            decreases TAG_COUNT - index,
        {
            let ghost before = self@.keybinds;
            let mut focus = String::from_str("set-focused-tags ");
            focus.append(decimal_string(mask).as_str());
            let mut view = String::from_str("set-view-tags ");
            view.append(decimal_string(mask).as_str());
            let focus_keybind = Keybind {
                modifier: String::from_str(modifier),
                keymap: decimal_string(index + 1),
                command: focus,
            };
            let view_keybind = Keybind {
                modifier: String::from_str(switch_modifier),
                keymap: decimal_string(index + 1),
                command: view,
            };
            self.keybinds.push(focus_keybind);
            self.keybinds.push(view_keybind);
            proof {
                lemma2_to64();
                lemma_pow2_unfold((index + 1) as nat);
                assert(focus_keybind@ == focus_tag_keybind(modifier@, index as nat));
                assert(view_keybind@ == view_tag_keybind(switch_modifier@, index as nat));
                assert(self@.keybinds =~= before.push(focus_keybind@).push(view_keybind@));
                assert(self@.keybinds =~= old(self)@.keybinds + tag_keybinds(
                    modifier@,
                    switch_modifier@,
                    (index + 1) as nat,
                ));
            }
            index += 1;
            mask = mask * 2;
        }
        self
    }

    /// Records `call` as issued.
    fn issue(&mut self, call: Invocation)
        ensures
            final(self)@ == (ConfigView { issued: old(self)@.issued.push(call@), ..old(self)@ }),
    {
        self.issued.push(call);
        assert(self@.issued =~= old(self)@.issued.push(call@));
    }

    /// The call that registers `keybind`, unless its command names no
    /// action.
    pub fn apply_keybind(&self, keybind: &Keybind) -> (outcome: Result<Invocation, ConfigError>)
        ensures
            outcome is Ok <==> has_action(keybind@),
            outcome matches Ok(call) ==> call@ == dispatch(keybind@),
            outcome matches Err(error) ==> error == ConfigError::EmptyCommand,
    {
        let mut words = match command_tokens(keybind.command.as_str()) {
            Ok(words) => words,
            Err(error) => {
                return Err(error);
            },
        };
        let mut args: Vec<String> = Vec::new();
        push_text(&mut args, "map");
        push_text(&mut args, "normal");
        push_text(&mut args, keybind.modifier.as_str());
        push_text(&mut args, keybind.keymap.as_str());
        let ghost head = args@;
        let ghost tail = words@;
        args.append(&mut words);
        proof {
            assert(texts(head) =~= seq!["map"@, "normal"@, keybind@.modifier, keybind@.keymap]);
            assert(texts(args@) =~= texts(head) + texts(tail));
        }
        Ok(Invocation::control(args))
    }

    /// Issues the call that binds `command` to `button` under the current
    /// modifier.
    fn apply_mouse_keybind(&mut self, button: MouseButton, command: &str)
        ensures
            final(self)@ == (ConfigView {
                issued: old(self)@.issued.push(
                    pointer_call(old(self)@.modifier, button, command@),
                ),
                ..old(self)@
            }),
    {
        let name = match button {
            MouseButton::Left => "BTN_LEFT",
            MouseButton::Right => "BTN_RIGHT",
            MouseButton::Middle => "BTN_MIDDLE",
        };
        let mut args: Vec<String> = Vec::new();
        push_text(&mut args, "map-pointer");
        push_text(&mut args, "normal");
        push_text(&mut args, self.modifier.as_str());
        push_text(&mut args, name);
        push_text(&mut args, command);
        assert(texts(args@) =~= seq![
            "map-pointer"@,
            "normal"@,
            self@.modifier,
            button_name(button),
            command@,
        ]);
        self.issue(Invocation::control(args));
    }

    /// Issues one call for each button that is given a command, under the
    /// current modifier: left, then right, then middle.
    pub fn set_mouse_keybinds(
        &mut self,
        left: Option<&str>,
        right: Option<&str>,
        middle: Option<&str>,
    ) -> (owner: &mut Self)
        ensures
            owner@ == (ConfigView {
                issued: old(self)@.issued + pointer_calls(
                    old(self)@.modifier,
                    MouseButton::Left,
                    left,
                ) + pointer_calls(old(self)@.modifier, MouseButton::Right, right) + pointer_calls(
                    old(self)@.modifier,
                    MouseButton::Middle,
                    middle,
                ),
                ..old(self)@
            }),
            *final(self) == *final(owner),
    {
        let ghost modifier = self@.modifier;
        if let Some(left_command) = left {
            self.apply_mouse_keybind(MouseButton::Left, left_command);
        }
        assert(self@.issued =~= old(self)@.issued + pointer_calls(
            modifier,
            MouseButton::Left,
            left,
        ));
        let ghost after_left = self@.issued;
        if let Some(right_command) = right {
            self.apply_mouse_keybind(MouseButton::Right, right_command);
        }
        assert(self@.issued =~= after_left + pointer_calls(modifier, MouseButton::Right, right));
        let ghost after_right = self@.issued;
        if let Some(middle_command) = middle {
            self.apply_mouse_keybind(MouseButton::Middle, middle_command);
        }
        assert(self@.issued =~= after_right + pointer_calls(
            modifier,
            MouseButton::Middle,
            middle,
        ));
        self
    }

    /// Issues the call that sets the rate and the delay of key
    /// repetition.
    pub fn set_repeat(&mut self, repeat_rate: u32, repeat_delay: u32) -> (owner: &mut Self)
        ensures
            owner@ == (ConfigView {
                issued: old(self)@.issued.push(repeat_call(repeat_rate, repeat_delay)),
                ..old(self)@
            }),
            *final(self) == *final(owner),
    {
        let mut args: Vec<String> = Vec::new();
        push_text(&mut args, "set-repeat");
        push_text(&mut args, decimal_string(repeat_rate).as_str());
        push_text(&mut args, decimal_string(repeat_delay).as_str());
        assert(texts(args@) =~= seq![
            "set-repeat"@,
            decimal(repeat_rate as nat),
            decimal(repeat_delay as nat),
        ]);
        self.issue(Invocation::control(args));
        self
    }

    /// Issues the call that sets the keyboard layout.
    pub fn set_keyboard_layout(&mut self, layout: KeyboardLayout<&str>) -> (owner: &mut Self)
        requires
            layout.layout is Some,
        ensures
            owner@ == (ConfigView {
                issued: old(self)@.issued.push(keyboard_call(layout)),
                ..old(self)@
            }),
            *final(self) == *final(owner),
    {
        if let Ok(call) = keyboard_layout_call(&layout) {
            self.issue(call);
        }
        self
    }

    /// Issues, for each pair of a key and a command, the call that binds
    /// the command to the key under the current modifier and sends it to
    /// the current layout generator.
    pub fn set_layout_keybinds(&mut self, keybinds: Vec<[&str; 2]>) -> (owner: &mut Self)
        ensures
            owner@ == (ConfigView {
                issued: old(self)@.issued + pairs_of(keybinds@).map_values(
                    |pair: (Seq<char>, Seq<char>)|
                        layout_keybind_call(
                            old(self)@.modifier,
                            old(self)@.layout.generator,
                            pair.0,
                            pair.1,
                        ),
                ),
                ..old(self)@
            }),
            *final(self) == *final(owner),
    {
        let ghost calls = pairs_of(keybinds@).map_values(
            |pair: (Seq<char>, Seq<char>)|
                layout_keybind_call(
                    old(self)@.modifier,
                    old(self)@.layout.generator,
                    pair.0,
                    pair.1,
                ),
        );
        let mut i: usize = 0;
        assert(self@.issued =~= old(self)@.issued + calls.take(0));
        while i < keybinds.len()
            invariant
                i <= keybinds@.len(),
                calls.len() == keybinds@.len(),
                forall|k: int|
                    0 <= k < keybinds@.len() ==> #[trigger] calls[k] == layout_keybind_call(
                        old(self)@.modifier,
                        old(self)@.layout.generator,
                        keybinds@[k][0]@,
                        keybinds@[k][1]@,
                    ),
                self@ == (ConfigView {
                    issued: old(self)@.issued + calls.take(i as int),
                    ..old(self)@
                }),
            decreases keybinds@.len() - i,
        {
            let pair = &keybinds[i];
            let mut args: Vec<String> = Vec::new();
            push_text(&mut args, "map");
            push_text(&mut args, "normal");
            push_text(&mut args, self.modifier.as_str());
            push_text(&mut args, pair[0]);
            push_text(&mut args, "send-layout-cmd");
            push_text(&mut args, self.layout.generator.as_str());
            push_text(&mut args, pair[1]);
            assert(texts(args@) =~= calls[i as int].args);
            self.issue(Invocation::control(args));
            assert(self@.issued =~= old(self)@.issued + calls.take(i + 1));
            i += 1;
        }
        assert(calls.take(i as int) =~= calls);
        self
    }

    /// Issues, for each program, the call that lets the compositor start
    /// it, in the order of the list.
    pub fn autostart(&mut self, applications: Vec<&str>) -> (owner: &mut Self)
        ensures
            owner@ == (ConfigView {
                issued: old(self)@.issued + applications@.map_values(
                    |program: &str| spawn_call(program@),
                ),
                ..old(self)@
            }),
            *final(self) == *final(owner),
    {
        let ghost calls = applications@.map_values(|program: &str| spawn_call(program@));
        let mut i: usize = 0;
        assert(self@.issued =~= old(self)@.issued + calls.take(0));
        while i < applications.len()
            invariant
                i <= applications@.len(),
                calls == applications@.map_values(|program: &str| spawn_call(program@)),
                self@ == (ConfigView {
                    issued: old(self)@.issued + calls.take(i as int),
                    ..old(self)@
                }),
            decreases applications@.len() - i,
        {
            self.issue(spawn(applications[i]));
            assert(self@.issued =~= old(self)@.issued + calls.take(i + 1));
            i += 1;
        }
        assert(calls.take(i as int) =~= calls);
        self
    }

    /// Issues the calls that set the three colours.
    pub fn apply_colors(&mut self) -> (owner: &mut Self)
        ensures
            owner@ == (ConfigView {
                issued: old(self)@.issued + color_calls(old(self)@.colors),
                ..old(self)@
            }),
            *final(self) == *final(owner),
    {
        let mut background: Vec<String> = Vec::new();
        push_text(&mut background, "background-color");
        push_text(&mut background, format_color(self.colors.background_color).as_str());
        assert(texts(background@) =~= color_calls(self@.colors)[0].args);
        self.issue(Invocation::control(background));
        let mut focused: Vec<String> = Vec::new();
        push_text(&mut focused, "border-color-focused");
        push_text(&mut focused, format_color(self.colors.border_color_focused).as_str());
        assert(texts(focused@) =~= color_calls(self@.colors)[1].args);
        self.issue(Invocation::control(focused));
        let mut unfocused: Vec<String> = Vec::new();
        push_text(&mut unfocused, "border-color-unfocused");
        push_text(&mut unfocused, format_color(self.colors.border_color_unfocused).as_str());
        assert(texts(unfocused@) =~= color_calls(self@.colors)[2].args);
        self.issue(Invocation::control(unfocused));
        assert(self@.issued =~= old(self)@.issued + color_calls(old(self)@.colors));
        self
    }

    /// Issues the calls that the configuration stands for: one for each
    /// keybind, in the order in which they were added, then those of the
    /// colours if the configuration asks for them, then those of the
    /// layout. Stops at the first keybind whose command names no action:
    /// the calls before it stay issued.
    pub fn apply(&mut self) -> (outcome: Result<(), ConfigError>)
        ensures
            outcome is Ok <==> ready(old(self)@.keybinds) == old(self)@.keybinds.len(),
            outcome matches Err(error) ==> error == ConfigError::EmptyCommand,
            final(self)@ == (ConfigView {
                issued: old(self)@.issued + apply_calls(old(self)@),
                ..old(self)@
            }),
    {
        let ghost keybinds = self@.keybinds;
        let ghost registered = keybinds.map_values(|keybind: KeybindView| dispatch(keybind));
        let mut i: usize = 0;
        assert(self@.issued =~= old(self)@.issued + registered.take(0));
        while i < self.keybinds.len()
            invariant
                i <= keybinds.len(),
                keybinds == old(self)@.keybinds,
                registered == keybinds.map_values(|keybind: KeybindView| dispatch(keybind)),
                forall|k: int| 0 <= k < i ==> has_action(#[trigger] keybinds[k]),
                self@ == (ConfigView {
                    issued: old(self)@.issued + registered.take(i as int),
                    ..old(self)@
                }),
            decreases keybinds.len() - i,
        {
            match self.apply_keybind(&self.keybinds[i]) {
                Ok(call) => {
                    self.issue(call);
                    assert(self@.issued =~= old(self)@.issued + registered.take(i + 1));
                },
                Err(error) => {
                    proof {
                        lemma_ready_is(keybinds, i as int);
                        assert(registered.take(i as int) =~= apply_calls(old(self)@));
                    }
                    return Err(error);
                },
            }
            i += 1;
        }
        proof {
            lemma_ready_is(keybinds, i as int);
            assert(registered.take(i as int) =~= keybinds.take(i as int).map_values(
                |keybind: KeybindView| dispatch(keybind),
            ));
        }
        if self.colors_on_apply {
            self.apply_colors();
        }
        let mut layout_calls = self.layout.spawn();
        let ghost before = self@.issued;
        self.issued.append(&mut layout_calls);
        assert(self@.issued =~= before + spawn_plan(old(self)@.layout));
        assert(self@.issued =~= old(self)@.issued + apply_calls(old(self)@));
        Ok(())
    }

    /// Replaces the colours.
    pub fn set_colors(&mut self, colors: Colors) -> (owner: &mut Self)
        ensures
            owner@ == (ConfigView { colors, ..old(self)@ }),
            *final(self) == *final(owner),
    {
        self.colors = colors;
        self
    }

    /// Chooses whether `apply` sets the colours too.
    pub fn set_apply_colors(&mut self, enabled: bool) -> (owner: &mut Self)
        ensures
            owner@ == (ConfigView { colors_on_apply: enabled, ..old(self)@ }),
            *final(self) == *final(owner),
    {
        self.colors_on_apply = enabled;
        self
    }

    /// The keybinds, in the order in which they were added.
    pub fn keybinds(&self) -> (keybinds: &Vec<Keybind>)
        ensures
            keybinds@.map_values(|keybind: Keybind| keybind@) == self@.keybinds,
    {
        &self.keybinds
    }

    /// The colours.
    pub fn colors(&self) -> (colors: &Colors)
        ensures
            *colors == self@.colors,
    {
        &self.colors
    }

    /// The layout generator.
    pub fn layout(&self) -> (layout: &Layout)
        ensures
            layout@ == self@.layout,
    {
        &self.layout
    }

    /// The modifier that the next keybind gets.
    pub fn modifier(&self) -> (modifier: &str)
        ensures
            modifier@ == self@.modifier,
    {
        self.modifier.as_str()
    }

    /// The calls issued so far and not yet taken, the oldest first.
    pub fn issued(&self) -> (calls: &Vec<Invocation>)
        ensures
            plan(calls@) == self@.issued,
    {
        &self.issued
    }

    /// Hands out the calls issued so far, the oldest first, and forgets
    /// them.
    pub fn take_issued(&mut self) -> (calls: Vec<Invocation>)
        ensures
            plan(calls@) == old(self)@.issued,
            final(self)@ == (ConfigView { issued: Seq::empty(), ..old(self)@ }),
    {
        let mut calls: Vec<Invocation> = Vec::new();
        let ghost before = self.issued@;
        calls.append(&mut self.issued);
        assert(calls@ =~= before);
        assert(self@.issued =~= Seq::empty());
        calls
    }

    /// Replaces the layout generator.
    pub fn set_layout_generator(&mut self, layout: Layout) -> (owner: &mut Self)
        ensures
            owner@ == (ConfigView { layout: layout@, ..old(self)@ }),
            *final(self) == *final(owner),
    {
        self.layout = layout;
        self
    }
}

} // verus!
