use emskin_dbus::effect::chain::EffectChain;
use emskin_dbus::effect::{Effect, EffectCommand, EffectInputCtx, EventResult};
use emskin_dbus::ipc::{default_ipc_path, handle_ipc_message, IncomingMessage};
use emskin_dbus::keymap::{keymap_text, trim_nuls, KeymapReader, MAX_KEYMAP_SIZE};

struct Probe {
    name: &'static str,
    position: u8,
    active: bool,
    remove: bool,
    again: bool,
    consumes: bool,
    log: Vec<String>,
}

fn probe(name: &'static str, position: u8) -> Probe {
    Probe {
        name,
        position,
        active: true,
        remove: false,
        again: false,
        consumes: false,
        log: Vec::new(),
    }
}

impl Effect for Probe {
    type Ctx = u32;
    type Renderer = Vec<String>;
    type Element = String;
    type Payload = String;
    type Button = u32;
    type Key = u32;
    type Ipc = Vec<String>;

    fn spec_name(&self) -> &'static str {
        self.name
    }

    fn active(&self) -> bool {
        self.active
    }

    fn position(&self) -> u8 {
        self.position
    }

    fn removable(&self) -> bool {
        self.remove
    }

    fn name(&self) -> &'static str {
        self.name
    }

    fn is_active(&self) -> bool {
        self.active
    }

    fn chain_position(&self) -> u8 {
        self.position
    }

    fn pre_paint(&mut self, ctx: &u32) {
        self.log.push(format!("pre {}", ctx));
    }

    fn paint(&mut self, renderer: &mut Vec<String>, ctx: &u32) -> Vec<String> {
        renderer.push(self.name.to_string());
        vec![format!("{}-{}", self.name, ctx), format!("{}!", self.name)]
    }

    fn post_paint(&mut self) -> bool {
        self.log.push("post".to_string());
        self.again
    }

    fn on_workspace_switch(&mut self) {
        self.log.push("switch".to_string());
    }

    fn should_remove(&self) -> bool {
        self.remove
    }

    fn handle_ipc(&mut self, payload: &String) {
        self.log.push(payload.clone());
        self.remove = payload == "remove";
    }

    fn handle_pointer_button(
        &mut self,
        event: &u32,
        ctx: &mut EffectInputCtx<'_, Vec<String>>,
    ) -> EventResult {
        ctx.ipc.push(format!("{} button {}", self.name, event));
        ctx.commands.push(EffectCommand::RequestRedraw);
        if self.consumes {
            EventResult::Consumed
        } else {
            EventResult::Pass
        }
    }

    fn handle_key(
        &mut self,
        event: &u32,
        ctx: &mut EffectInputCtx<'_, Vec<String>>,
    ) -> EventResult {
        ctx.ipc.push(format!("{} key {}", self.name, event));
        if self.consumes {
            EventResult::Consumed
        } else {
            EventResult::Pass
        }
    }
}

fn painted(chain: &mut EffectChain<Probe>) -> Vec<String> {
    let mut order = Vec::new();
    chain.paint(&mut order, &7);
    order
}

#[test]
fn effects_are_ordered_by_height_then_by_registration() {
    let mut chain = EffectChain::new();
    chain.register(probe("a", 50));
    chain.register(probe("b", 90));
    chain.register(probe("c", 50));
    chain.register(probe("d", 10));
    chain.register(probe("e", 90));
    assert_eq!(painted(&mut chain), vec!["b", "e", "a", "c", "d"]);
}

#[test]
fn only_active_effects_take_part_in_frames() {
    let mut chain = EffectChain::default();
    let mut off = probe("off", 80);
    off.active = false;
    off.again = true;
    chain.register(off);
    chain.register(probe("on", 20));
    chain.pre_paint(&3);
    let mut order = Vec::new();
    assert_eq!(
        chain.paint(&mut order, &3),
        vec!["on-3".to_string(), "on!".to_string()]
    );
    assert!(!chain.post_paint());
    let mut again = probe("again", 1);
    again.again = true;
    chain.register(again);
    assert!(chain.post_paint());
}

#[test]
fn removable_effects_are_dropped_after_the_frame() {
    let mut chain = EffectChain::new();
    chain.register(probe("a", 1));
    let mut gone = probe("gone", 2);
    gone.remove = true;
    gone.active = false;
    chain.register(gone);
    chain.register(probe("b", 3));
    assert!(!chain.post_paint());
    assert_eq!(painted(&mut chain), vec!["b", "a"]);
}

#[test]
fn messages_go_to_the_first_effect_of_the_name() {
    let mut chain = EffectChain::new();
    chain.register(probe("x", 5));
    chain.register(probe("x", 9));
    chain.dispatch_ipc("nobody", &"remove".to_string());
    chain.post_paint();
    assert_eq!(painted(&mut chain).len(), 2);
    chain.dispatch_ipc("x", &"remove".to_string());
    chain.on_workspace_switch();
    chain.post_paint();
    assert_eq!(painted(&mut chain), vec!["x"]);
}

#[test]
fn the_first_to_consume_ends_an_event() {
    let mut chain = EffectChain::new();
    chain.register(probe("top", 9));
    let mut middle = probe("middle", 5);
    middle.consumes = true;
    middle.active = false;
    chain.register(middle);
    chain.register(probe("bottom", 1));
    let mut ipc: Vec<String> = Vec::new();
    let mut commands: Vec<EffectCommand> = Vec::new();
    let mut ctx = EffectInputCtx {
        ipc: &mut ipc,
        commands: &mut commands,
    };
    assert_eq!(
        chain.dispatch_pointer_button(&1, &mut ctx),
        EventResult::Consumed
    );
    assert_eq!(chain.dispatch_key(&2, &mut ctx), EventResult::Consumed);
    assert_eq!(
        ipc,
        vec!["top button 1", "middle button 1", "top key 2", "middle key 2"]
    );
    assert_eq!(
        commands,
        vec![EffectCommand::RequestRedraw, EffectCommand::RequestRedraw]
    );
}

#[test]
fn an_event_that_nobody_consumes_passes() {
    let mut chain = EffectChain::new();
    chain.register(probe("a", 9));
    chain.register(probe("b", 5));
    let mut ipc: Vec<String> = Vec::new();
    let mut commands: Vec<EffectCommand> = vec![EffectCommand::SwitchWorkspace(4)];
    let mut ctx = EffectInputCtx {
        ipc: &mut ipc,
        commands: &mut commands,
    };
    assert_eq!(chain.dispatch_key(&2, &mut ctx), EventResult::Pass);
    assert_eq!(
        chain.dispatch_pointer_button(&3, &mut ctx),
        EventResult::Pass
    );
    assert_eq!(ipc, vec!["a key 2", "b key 2", "a button 3", "b button 3"]);
    assert_eq!(commands.len(), 3);
}

#[test]
fn keymaps_lose_their_closing_nuls() {
    assert_eq!(keymap_text(b"xkb_keymap\0\0"), "xkb_keymap");
    assert_eq!(keymap_text(b"a\0b\0"), "a\0b");
    assert_eq!(keymap_text("dé\0".as_bytes()), "dé");
    assert_eq!(keymap_text(b"\0"), "");
    assert_eq!(keymap_text(b"a\xffb"), "a\u{fffd}b");
    assert_eq!(trim_nuls("é\0"), "é");
    assert_eq!(trim_nuls(""), "");
}

#[test]
fn the_first_seat_and_its_keyboard_are_taken() {
    let mut reader = KeymapReader::new();
    assert_eq!(reader.on_global("wl_output", 3), None);
    assert_eq!(reader.on_global("wl_seat", 7), Some(1));
    assert_eq!(reader.on_global("wl_seat", 7), None);
    assert!(!reader.on_capabilities(false));
    assert!(reader.on_capabilities(true));
    assert!(!reader.on_capabilities(true));
    assert_eq!(reader.on_keymap(true, 0), None);
    assert_eq!(reader.on_keymap(false, 9), None);
    assert_eq!(reader.on_keymap(true, 9), Some(9));
    assert_eq!(
        reader.on_keymap(true, MAX_KEYMAP_SIZE as u32),
        Some(MAX_KEYMAP_SIZE)
    );
    assert_eq!(reader.on_keymap(true, MAX_KEYMAP_SIZE as u32 + 1), None);
    reader.on_keymap_bytes(b"first\0");
    reader.on_keymap_bytes(b"second\0");
    assert_eq!(reader.into_keymap().as_deref(), Some("second"));
    assert_eq!(KeymapReader::new().into_keymap(), None);
    assert_eq!(KeymapReader::new().on_global("wl_seat", 0), Some(0));
}

#[test]
fn socket_paths() {
    assert_eq!(
        default_ipc_path(Some("/run/user/1000"), 42),
        "/run/user/1000/eafvil-42.ipc"
    );
    assert_eq!(default_ipc_path(None, 0), "/tmp/eafvil-0.ipc");
}

#[test]
fn messages_are_described() {
    assert_eq!(
        handle_ipc_message(&IncomingMessage::SetGeometry {
            window_id: 3,
            x: -10,
            y: i32::MIN,
            w: 100,
            h: 0,
        }),
        "IPC set_geometry window=3 (-10,-2147483648,100,0)"
    );
    assert_eq!(
        handle_ipc_message(&IncomingMessage::Close {
            window_id: u64::MAX
        }),
        "IPC close window=18446744073709551615"
    );
    assert_eq!(
        handle_ipc_message(&IncomingMessage::SetVisibility {
            window_id: 1,
            visible: false,
        }),
        "IPC set_visibility window=1 visible=false"
    );
    assert_eq!(
        handle_ipc_message(&IncomingMessage::ForwardKey {
            window_id: 1,
            keycode: 38,
            state: 1,
            modifiers: 4,
        }),
        "IPC forward_key window=1 key=38 state=1 mods=4"
    );
}
