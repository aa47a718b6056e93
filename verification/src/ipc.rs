//! Messages from the editor to the compositor.

use vstd::prelude::*;

use crate::text::{decimal, push_decimal, push_text};

verus! {

/// A message from the editor.
#[derive(Debug, Clone, PartialEq, Eq)]
pub enum IncomingMessage {
    SetGeometry { window_id: u64, x: i32, y: i32, w: u32, h: u32 },
    Close { window_id: u64 },
    SetVisibility { window_id: u64, visible: bool },
    ForwardKey { window_id: u64, keycode: u32, state: u32, modifiers: u32 },
}

/// A number with its sign.
pub open spec fn signed_decimal(n: int) -> Seq<char> {
    if n < 0 {
        "-"@ + decimal((-n) as nat)
    } else {
        decimal(n as nat)
    }
}

/// `true` or `false`.
pub open spec fn truth(b: bool) -> Seq<char> {
    if b {
        "true"@
    } else {
        "false"@
    }
}

/// The line that is logged for a message.
pub open spec fn message_line(msg: IncomingMessage) -> Seq<char> {
    match msg {
        IncomingMessage::SetGeometry { window_id, x, y, w, h } => "IPC set_geometry window="@
            + decimal(window_id as nat) + " ("@ + signed_decimal(x as int) + ","@ + signed_decimal(
            y as int,
        ) + ","@ + decimal(w as nat) + ","@ + decimal(h as nat) + ")"@,
        IncomingMessage::Close { window_id } => "IPC close window="@ + decimal(window_id as nat),
        IncomingMessage::SetVisibility { window_id, visible } => "IPC set_visibility window="@
            + decimal(window_id as nat) + " visible="@ + truth(visible),
        IncomingMessage::ForwardKey { window_id, keycode, state, modifiers } =>
            "IPC forward_key window="@ + decimal(window_id as nat) + " key="@ + decimal(
            keycode as nat,
        ) + " state="@ + decimal(state as nat) + " mods="@ + decimal(modifiers as nat),
    }
}

/// Appends a number with its sign.
fn push_signed(text: &mut String, n: i32)
    ensures
        final(text)@ == old(text)@ + signed_decimal(n as int),
{
    if n < 0 {
        push_text(text, "-");
        push_decimal(text, (-(n as i64)) as u64);
        assert(text@ =~= old(text)@ + signed_decimal(n as int));
    } else {
        push_decimal(text, n as u64);
    }
}

/// Follows a message from the editor. As yet this only gives the line to be
/// logged.
pub fn handle_ipc_message(msg: &IncomingMessage) -> (line: String)
    ensures
        line@ == message_line(*msg),
{
    let mut line = String::new();
    match msg {
        IncomingMessage::SetGeometry { window_id, x, y, w, h } => {
            push_text(&mut line, "IPC set_geometry window=");
            push_decimal(&mut line, *window_id);
            push_text(&mut line, " (");
            push_signed(&mut line, *x);
            push_text(&mut line, ",");
            push_signed(&mut line, *y);
            push_text(&mut line, ",");
            push_decimal(&mut line, *w as u64);
            push_text(&mut line, ",");
            push_decimal(&mut line, *h as u64);
            push_text(&mut line, ")");
        },
        IncomingMessage::Close { window_id } => {
            push_text(&mut line, "IPC close window=");
            push_decimal(&mut line, *window_id);
        },
        IncomingMessage::SetVisibility { window_id, visible } => {
            push_text(&mut line, "IPC set_visibility window=");
            push_decimal(&mut line, *window_id);
            push_text(&mut line, " visible=");
            push_text(
                &mut line,
                if *visible {
                    "true"
                } else {
                    "false"
                },
            );
        },
        IncomingMessage::ForwardKey { window_id, keycode, state, modifiers } => {
            push_text(&mut line, "IPC forward_key window=");
            push_decimal(&mut line, *window_id);
            push_text(&mut line, " key=");
            push_decimal(&mut line, *keycode as u64);
            push_text(&mut line, " state=");
            push_decimal(&mut line, *state as u64);
            push_text(&mut line, " mods=");
            push_decimal(&mut line, *modifiers as u64);
        },
    }
    assert(line@ =~= message_line(*msg));
    line
}

/// The socket path for a process: in the runtime directory, or in `/tmp` where
/// there is none.
pub open spec fn ipc_path(runtime_dir: Option<Seq<char>>, pid: u32) -> Seq<char> {
    (match runtime_dir {
        Some(dir) => dir,
        None => "/tmp"@,
    }) + "/eafvil-"@ + decimal(pid as nat) + ".ipc"@
}

/// The socket path for a process.
pub fn default_ipc_path(runtime_dir: Option<&str>, pid: u32) -> (path: String)
    ensures
        path@ == ipc_path(
            match runtime_dir {
                Some(dir) => Some(dir@),
                None => None,
            },
            pid,
        ),
{
    let mut path = String::new();
    push_text(
        &mut path,
        match runtime_dir {
            Some(dir) => dir,
            None => "/tmp",
        },
    );
    push_text(&mut path, "/eafvil-");
    push_decimal(&mut path, pid as u64);
    push_text(&mut path, ".ipc");
    assert(path@ =~= ipc_path(
        match runtime_dir {
            Some(dir) => Some(dir@),
            None => None,
        },
        pid,
    ));
    path
}

/// The lines that are logged, with the numbers of each message in their order.
pub proof fn lines_name_their_numbers(
    window_id: u64,
    x: i32,
    y: i32,
    w: u32,
    h: u32,
    visible: bool,
    keycode: u32,
    state: u32,
    modifiers: u32,
)
    ensures
        message_line(IncomingMessage::SetGeometry { window_id, x, y, w, h })
            == "IPC set_geometry window="@ + decimal(window_id as nat) + " ("@ + signed_decimal(
            x as int,
        ) + ","@ + signed_decimal(y as int) + ","@ + decimal(w as nat) + ","@ + decimal(h as nat)
            + ")"@,
        message_line(IncomingMessage::Close { window_id }) == "IPC close window="@ + decimal(
            window_id as nat,
        ),
        message_line(IncomingMessage::SetVisibility { window_id, visible })
            == "IPC set_visibility window="@ + decimal(window_id as nat) + " visible="@ + (
        if visible {
            "true"@
        } else {
            "false"@
        }),
        message_line(IncomingMessage::ForwardKey { window_id, keycode, state, modifiers })
            == "IPC forward_key window="@ + decimal(window_id as nat) + " key="@ + decimal(
            keycode as nat,
        ) + " state="@ + decimal(state as nat) + " mods="@ + decimal(modifiers as nat),
        x >= 0 ==> signed_decimal(x as int) == decimal(x as nat),
        x < 0 ==> signed_decimal(x as int) == "-"@ + decimal((-x) as nat),
{
}

/// Each process has a socket of its own, in the runtime directory or in `/tmp`.
pub proof fn sockets_are_named_by_process(dir: Seq<char>, pid: u32)
    ensures
        ipc_path(Some(dir), pid) == dir + "/eafvil-"@ + decimal(pid as nat) + ".ipc"@,
        ipc_path(None, pid) == "/tmp"@ + "/eafvil-"@ + decimal(pid as nat) + ".ipc"@,
{
}

} // verus!
