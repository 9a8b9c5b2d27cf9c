//! The keys of the host keyboard that the guest sees, and the Linux key code
//! that each one is reported as.
use crate::virtio::input::{in_set, CodeSet};
use vstd::prelude::*;

verus! {

/// A key of the host keyboard that the guest's keyboard reports.
#[derive(Debug, Clone, Copy)]
pub enum HostKey {
    Escape,
    Digit1,
    Digit2,
    Digit3,
    Digit4,
    Digit5,
    Digit6,
    Digit7,
    Digit8,
    Digit9,
    Digit0,
    Minus,
    Equal,
    Backspace,
    Tab,
    KeyQ,
    KeyW,
    KeyE,
    KeyR,
    KeyT,
    KeyY,
    KeyU,
    KeyI,
    KeyO,
    KeyP,
    BracketLeft,
    BracketRight,
    Enter,
    ControlLeft,
    KeyA,
    KeyS,
    KeyD,
    KeyF,
    KeyG,
    KeyH,
    KeyJ,
    KeyK,
    KeyL,
    Semicolon,
    Quote,
    Backquote,
    ShiftLeft,
    Backslash,
    KeyZ,
    KeyX,
    KeyC,
    KeyV,
    KeyB,
    KeyN,
    KeyM,
    Comma,
    Period,
    Slash,
    ShiftRight,
    NumpadMultiply,
    AltLeft,
    Space,
    CapsLock,
    F1,
    F2,
    F3,
    F4,
    F5,
    F6,
    F7,
    F8,
    F9,
    F10,
    NumLock,
    ScrollLock,
    Numpad7,
    Numpad8,
    Numpad9,
    NumpadSubtract,
    Numpad4,
    Numpad5,
    Numpad6,
    NumpadAdd,
    Numpad1,
    Numpad2,
    Numpad3,
    Numpad0,
    NumpadDecimal,
    F11,
    F12,
    NumpadEnter,
    ControlRight,
    NumpadDivide,
    AltRight,
    Home,
    ArrowUp,
    PageUp,
    ArrowLeft,
    ArrowRight,
    End,
    ArrowDown,
    PageDown,
    Insert,
    Delete,
}

/// The keys of the main block and keypad, row by row as the PC/AT keyboard
/// numbers them: Escape, the number row, the three letter rows with their
/// modifiers, Space and Caps Lock, F1 to F10, the locks and the keypad.
pub open spec fn main_block() -> Seq<HostKey> {
    seq![
        HostKey::Escape,
        HostKey::Digit1,
        HostKey::Digit2,
        HostKey::Digit3,
        HostKey::Digit4,
        HostKey::Digit5,
        HostKey::Digit6,
        HostKey::Digit7,
        HostKey::Digit8,
        HostKey::Digit9,
        HostKey::Digit0,
        HostKey::Minus,
        HostKey::Equal,
        HostKey::Backspace,
        HostKey::Tab,
        HostKey::KeyQ,
        HostKey::KeyW,
        HostKey::KeyE,
        HostKey::KeyR,
        HostKey::KeyT,
        HostKey::KeyY,
        HostKey::KeyU,
        HostKey::KeyI,
        HostKey::KeyO,
        HostKey::KeyP,
        HostKey::BracketLeft,
        HostKey::BracketRight,
        HostKey::Enter,
        HostKey::ControlLeft,
        HostKey::KeyA,
        HostKey::KeyS,
        HostKey::KeyD,
        HostKey::KeyF,
        HostKey::KeyG,
        HostKey::KeyH,
        HostKey::KeyJ,
        HostKey::KeyK,
        HostKey::KeyL,
        HostKey::Semicolon,
        HostKey::Quote,
        HostKey::Backquote,
        HostKey::ShiftLeft,
        HostKey::Backslash,
        HostKey::KeyZ,
        HostKey::KeyX,
        HostKey::KeyC,
        HostKey::KeyV,
        HostKey::KeyB,
        HostKey::KeyN,
        HostKey::KeyM,
        HostKey::Comma,
        HostKey::Period,
        HostKey::Slash,
        HostKey::ShiftRight,
        HostKey::NumpadMultiply,
        HostKey::AltLeft,
        HostKey::Space,
        HostKey::CapsLock,
        HostKey::F1,
        HostKey::F2,
        HostKey::F3,
        HostKey::F4,
        HostKey::F5,
        HostKey::F6,
        HostKey::F7,
        HostKey::F8,
        HostKey::F9,
        HostKey::F10,
        HostKey::NumLock,
        HostKey::ScrollLock,
        HostKey::Numpad7,
        HostKey::Numpad8,
        HostKey::Numpad9,
        HostKey::NumpadSubtract,
        HostKey::Numpad4,
        HostKey::Numpad5,
        HostKey::Numpad6,
        HostKey::NumpadAdd,
        HostKey::Numpad1,
        HostKey::Numpad2,
        HostKey::Numpad3,
        HostKey::Numpad0,
        HostKey::NumpadDecimal,
    ]
}

/// The function keys past F10.
pub open spec fn function_tail() -> Seq<HostKey> {
    seq![
        HostKey::F11,
        HostKey::F12,
    ]
}

/// The keypad's Enter, the right Control and the keypad's divide key.
pub open spec fn right_block() -> Seq<HostKey> {
    seq![
        HostKey::NumpadEnter,
        HostKey::ControlRight,
        HostKey::NumpadDivide,
    ]
}

/// The navigation keys: Home, Up and Page Up; Left and Right; End, Down and
/// Page Down; Insert and Delete.
pub open spec fn navigation_block() -> Seq<HostKey> {
    seq![
        HostKey::Home,
        HostKey::ArrowUp,
        HostKey::PageUp,
        HostKey::ArrowLeft,
        HostKey::ArrowRight,
        HostKey::End,
        HostKey::ArrowDown,
        HostKey::PageDown,
        HostKey::Insert,
        HostKey::Delete,
    ]
}

/// The codes follow the PC/AT keyboard's scan code order, as Linux's input
/// event codes do: the main block and keypad take 1 to 83 in order, F11 and
/// F12 take 87 and 88, keypad Enter, right Control and keypad divide take
/// 96 to 98, right Alt 100, and the navigation keys 102 to 111 in order.
pub proof fn lemma_codes_follow_layout(i: int)
    ensures
        0 <= i < 83 ==> linux_key_spec(main_block()[i]) == i + 1,
        0 <= i < 2 ==> linux_key_spec(function_tail()[i]) == 87 + i,
        0 <= i < 3 ==> linux_key_spec(right_block()[i]) == 96 + i,
        linux_key_spec(HostKey::AltRight) == 100,
        0 <= i < 10 ==> linux_key_spec(navigation_block()[i]) == 102 + i,
{
    if i == 0 {
        assert(main_block()[0] == HostKey::Escape);
        assert(function_tail()[0] == HostKey::F11);
        assert(right_block()[0] == HostKey::NumpadEnter);
        assert(navigation_block()[0] == HostKey::Home);
    } else if i == 1 {
        assert(main_block()[1] == HostKey::Digit1);
        assert(function_tail()[1] == HostKey::F12);
        assert(right_block()[1] == HostKey::ControlRight);
        assert(navigation_block()[1] == HostKey::ArrowUp);
    } else if i == 2 {
        assert(main_block()[2] == HostKey::Digit2);
        assert(right_block()[2] == HostKey::NumpadDivide);
        assert(navigation_block()[2] == HostKey::PageUp);
    } else if i == 3 {
        assert(main_block()[3] == HostKey::Digit3);
        assert(navigation_block()[3] == HostKey::ArrowLeft);
    } else if i == 4 {
        assert(main_block()[4] == HostKey::Digit4);
        assert(navigation_block()[4] == HostKey::ArrowRight);
    } else if i == 5 {
        assert(main_block()[5] == HostKey::Digit5);
        assert(navigation_block()[5] == HostKey::End);
    } else if i == 6 {
        assert(main_block()[6] == HostKey::Digit6);
        assert(navigation_block()[6] == HostKey::ArrowDown);
    } else if i == 7 {
        assert(main_block()[7] == HostKey::Digit7);
        assert(navigation_block()[7] == HostKey::PageDown);
    } else if i == 8 {
        assert(main_block()[8] == HostKey::Digit8);
        assert(navigation_block()[8] == HostKey::Insert);
    } else if i == 9 {
        assert(main_block()[9] == HostKey::Digit9);
        assert(navigation_block()[9] == HostKey::Delete);
    } else if i == 10 {
        assert(main_block()[10] == HostKey::Digit0);
    } else if i == 11 {
        assert(main_block()[11] == HostKey::Minus);
    } else if i == 12 {
        assert(main_block()[12] == HostKey::Equal);
    } else if i == 13 {
        assert(main_block()[13] == HostKey::Backspace);
    } else if i == 14 {
        assert(main_block()[14] == HostKey::Tab);
    } else if i == 15 {
        assert(main_block()[15] == HostKey::KeyQ);
    } else if i == 16 {
        assert(main_block()[16] == HostKey::KeyW);
    } else if i == 17 {
        assert(main_block()[17] == HostKey::KeyE);
    } else if i == 18 {
        assert(main_block()[18] == HostKey::KeyR);
    } else if i == 19 {
        assert(main_block()[19] == HostKey::KeyT);
    } else if i == 20 {
        assert(main_block()[20] == HostKey::KeyY);
    } else if i == 21 {
        assert(main_block()[21] == HostKey::KeyU);
    } else if i == 22 {
        assert(main_block()[22] == HostKey::KeyI);
    } else if i == 23 {
        assert(main_block()[23] == HostKey::KeyO);
    } else if i == 24 {
        assert(main_block()[24] == HostKey::KeyP);
    } else if i == 25 {
        assert(main_block()[25] == HostKey::BracketLeft);
    } else if i == 26 {
        assert(main_block()[26] == HostKey::BracketRight);
    } else if i == 27 {
        assert(main_block()[27] == HostKey::Enter);
    } else if i == 28 {
        assert(main_block()[28] == HostKey::ControlLeft);
    } else if i == 29 {
        assert(main_block()[29] == HostKey::KeyA);
    } else if i == 30 {
        assert(main_block()[30] == HostKey::KeyS);
    } else if i == 31 {
        assert(main_block()[31] == HostKey::KeyD);
    } else if i == 32 {
        assert(main_block()[32] == HostKey::KeyF);
    } else if i == 33 {
        assert(main_block()[33] == HostKey::KeyG);
    } else if i == 34 {
        assert(main_block()[34] == HostKey::KeyH);
    } else if i == 35 {
        assert(main_block()[35] == HostKey::KeyJ);
    } else if i == 36 {
        assert(main_block()[36] == HostKey::KeyK);
    } else if i == 37 {
        assert(main_block()[37] == HostKey::KeyL);
    } else if i == 38 {
        assert(main_block()[38] == HostKey::Semicolon);
    } else if i == 39 {
        assert(main_block()[39] == HostKey::Quote);
    } else if i == 40 {
        assert(main_block()[40] == HostKey::Backquote);
    } else if i == 41 {
        assert(main_block()[41] == HostKey::ShiftLeft);
    } else if i == 42 {
        assert(main_block()[42] == HostKey::Backslash);
    } else if i == 43 {
        assert(main_block()[43] == HostKey::KeyZ);
    } else if i == 44 {
        assert(main_block()[44] == HostKey::KeyX);
    } else if i == 45 {
        assert(main_block()[45] == HostKey::KeyC);
    } else if i == 46 {
        assert(main_block()[46] == HostKey::KeyV);
    } else if i == 47 {
        assert(main_block()[47] == HostKey::KeyB);
    } else if i == 48 {
        assert(main_block()[48] == HostKey::KeyN);
    } else if i == 49 {
        assert(main_block()[49] == HostKey::KeyM);
    } else if i == 50 {
        assert(main_block()[50] == HostKey::Comma);
    } else if i == 51 {
        assert(main_block()[51] == HostKey::Period);
    } else if i == 52 {
        assert(main_block()[52] == HostKey::Slash);
    } else if i == 53 {
        assert(main_block()[53] == HostKey::ShiftRight);
    } else if i == 54 {
        assert(main_block()[54] == HostKey::NumpadMultiply);
    } else if i == 55 {
        assert(main_block()[55] == HostKey::AltLeft);
    } else if i == 56 {
        assert(main_block()[56] == HostKey::Space);
    } else if i == 57 {
        assert(main_block()[57] == HostKey::CapsLock);
    } else if i == 58 {
        assert(main_block()[58] == HostKey::F1);
    } else if i == 59 {
        assert(main_block()[59] == HostKey::F2);
    } else if i == 60 {
        assert(main_block()[60] == HostKey::F3);
    } else if i == 61 {
        assert(main_block()[61] == HostKey::F4);
    } else if i == 62 {
        assert(main_block()[62] == HostKey::F5);
    } else if i == 63 {
        assert(main_block()[63] == HostKey::F6);
    } else if i == 64 {
        assert(main_block()[64] == HostKey::F7);
    } else if i == 65 {
        assert(main_block()[65] == HostKey::F8);
    } else if i == 66 {
        assert(main_block()[66] == HostKey::F9);
    } else if i == 67 {
        assert(main_block()[67] == HostKey::F10);
    } else if i == 68 {
        assert(main_block()[68] == HostKey::NumLock);
    } else if i == 69 {
        assert(main_block()[69] == HostKey::ScrollLock);
    } else if i == 70 {
        assert(main_block()[70] == HostKey::Numpad7);
    } else if i == 71 {
        assert(main_block()[71] == HostKey::Numpad8);
    } else if i == 72 {
        assert(main_block()[72] == HostKey::Numpad9);
    } else if i == 73 {
        assert(main_block()[73] == HostKey::NumpadSubtract);
    } else if i == 74 {
        assert(main_block()[74] == HostKey::Numpad4);
    } else if i == 75 {
        assert(main_block()[75] == HostKey::Numpad5);
    } else if i == 76 {
        assert(main_block()[76] == HostKey::Numpad6);
    } else if i == 77 {
        assert(main_block()[77] == HostKey::NumpadAdd);
    } else if i == 78 {
        assert(main_block()[78] == HostKey::Numpad1);
    } else if i == 79 {
        assert(main_block()[79] == HostKey::Numpad2);
    } else if i == 80 {
        assert(main_block()[80] == HostKey::Numpad3);
    } else if i == 81 {
        assert(main_block()[81] == HostKey::Numpad0);
    } else if i == 82 {
        assert(main_block()[82] == HostKey::NumpadDecimal);
    }
}

/// Every key of the host keyboard is in one of the runs of
/// `lemma_codes_follow_layout`, so that law gives the code of each.
pub proof fn lemma_runs_cover(k: HostKey)
    ensures
        main_block().contains(k) || function_tail().contains(k) || right_block().contains(k) || k
            == HostKey::AltRight || navigation_block().contains(k),
{
    match k {
        HostKey::Escape => assert(main_block()[0] == k),
        HostKey::Digit1 => assert(main_block()[1] == k),
        HostKey::Digit2 => assert(main_block()[2] == k),
        HostKey::Digit3 => assert(main_block()[3] == k),
        HostKey::Digit4 => assert(main_block()[4] == k),
        HostKey::Digit5 => assert(main_block()[5] == k),
        HostKey::Digit6 => assert(main_block()[6] == k),
        HostKey::Digit7 => assert(main_block()[7] == k),
        HostKey::Digit8 => assert(main_block()[8] == k),
        HostKey::Digit9 => assert(main_block()[9] == k),
        HostKey::Digit0 => assert(main_block()[10] == k),
        HostKey::Minus => assert(main_block()[11] == k),
        HostKey::Equal => assert(main_block()[12] == k),
        HostKey::Backspace => assert(main_block()[13] == k),
        HostKey::Tab => assert(main_block()[14] == k),
        HostKey::KeyQ => assert(main_block()[15] == k),
        HostKey::KeyW => assert(main_block()[16] == k),
        HostKey::KeyE => assert(main_block()[17] == k),
        HostKey::KeyR => assert(main_block()[18] == k),
        HostKey::KeyT => assert(main_block()[19] == k),
        HostKey::KeyY => assert(main_block()[20] == k),
        HostKey::KeyU => assert(main_block()[21] == k),
        HostKey::KeyI => assert(main_block()[22] == k),
        HostKey::KeyO => assert(main_block()[23] == k),
        HostKey::KeyP => assert(main_block()[24] == k),
        HostKey::BracketLeft => assert(main_block()[25] == k),
        HostKey::BracketRight => assert(main_block()[26] == k),
        HostKey::Enter => assert(main_block()[27] == k),
        HostKey::ControlLeft => assert(main_block()[28] == k),
        HostKey::KeyA => assert(main_block()[29] == k),
        HostKey::KeyS => assert(main_block()[30] == k),
        HostKey::KeyD => assert(main_block()[31] == k),
        HostKey::KeyF => assert(main_block()[32] == k),
        HostKey::KeyG => assert(main_block()[33] == k),
        HostKey::KeyH => assert(main_block()[34] == k),
        HostKey::KeyJ => assert(main_block()[35] == k),
        HostKey::KeyK => assert(main_block()[36] == k),
        HostKey::KeyL => assert(main_block()[37] == k),
        HostKey::Semicolon => assert(main_block()[38] == k),
        HostKey::Quote => assert(main_block()[39] == k),
        HostKey::Backquote => assert(main_block()[40] == k),
        HostKey::ShiftLeft => assert(main_block()[41] == k),
        HostKey::Backslash => assert(main_block()[42] == k),
        HostKey::KeyZ => assert(main_block()[43] == k),
        HostKey::KeyX => assert(main_block()[44] == k),
        HostKey::KeyC => assert(main_block()[45] == k),
        HostKey::KeyV => assert(main_block()[46] == k),
        HostKey::KeyB => assert(main_block()[47] == k),
        HostKey::KeyN => assert(main_block()[48] == k),
        HostKey::KeyM => assert(main_block()[49] == k),
        HostKey::Comma => assert(main_block()[50] == k),
        HostKey::Period => assert(main_block()[51] == k),
        HostKey::Slash => assert(main_block()[52] == k),
        HostKey::ShiftRight => assert(main_block()[53] == k),
        HostKey::NumpadMultiply => assert(main_block()[54] == k),
        HostKey::AltLeft => assert(main_block()[55] == k),
        HostKey::Space => assert(main_block()[56] == k),
        HostKey::CapsLock => assert(main_block()[57] == k),
        HostKey::F1 => assert(main_block()[58] == k),
        HostKey::F2 => assert(main_block()[59] == k),
        HostKey::F3 => assert(main_block()[60] == k),
        HostKey::F4 => assert(main_block()[61] == k),
        HostKey::F5 => assert(main_block()[62] == k),
        HostKey::F6 => assert(main_block()[63] == k),
        HostKey::F7 => assert(main_block()[64] == k),
        HostKey::F8 => assert(main_block()[65] == k),
        HostKey::F9 => assert(main_block()[66] == k),
        HostKey::F10 => assert(main_block()[67] == k),
        HostKey::NumLock => assert(main_block()[68] == k),
        HostKey::ScrollLock => assert(main_block()[69] == k),
        HostKey::Numpad7 => assert(main_block()[70] == k),
        HostKey::Numpad8 => assert(main_block()[71] == k),
        HostKey::Numpad9 => assert(main_block()[72] == k),
        HostKey::NumpadSubtract => assert(main_block()[73] == k),
        HostKey::Numpad4 => assert(main_block()[74] == k),
        HostKey::Numpad5 => assert(main_block()[75] == k),
        HostKey::Numpad6 => assert(main_block()[76] == k),
        HostKey::NumpadAdd => assert(main_block()[77] == k),
        HostKey::Numpad1 => assert(main_block()[78] == k),
        HostKey::Numpad2 => assert(main_block()[79] == k),
        HostKey::Numpad3 => assert(main_block()[80] == k),
        HostKey::Numpad0 => assert(main_block()[81] == k),
        HostKey::NumpadDecimal => assert(main_block()[82] == k),
        HostKey::F11 => assert(function_tail()[0] == k),
        HostKey::F12 => assert(function_tail()[1] == k),
        HostKey::NumpadEnter => assert(right_block()[0] == k),
        HostKey::ControlRight => assert(right_block()[1] == k),
        HostKey::NumpadDivide => assert(right_block()[2] == k),
        HostKey::AltRight => {},
        HostKey::Home => assert(navigation_block()[0] == k),
        HostKey::ArrowUp => assert(navigation_block()[1] == k),
        HostKey::PageUp => assert(navigation_block()[2] == k),
        HostKey::ArrowLeft => assert(navigation_block()[3] == k),
        HostKey::ArrowRight => assert(navigation_block()[4] == k),
        HostKey::End => assert(navigation_block()[5] == k),
        HostKey::ArrowDown => assert(navigation_block()[6] == k),
        HostKey::PageDown => assert(navigation_block()[7] == k),
        HostKey::Insert => assert(navigation_block()[8] == k),
        HostKey::Delete => assert(navigation_block()[9] == k),
    }
}

/// The Linux key code of `k`.
pub open spec fn linux_key_spec(k: HostKey) -> u16 {
    match k {
        HostKey::Escape => 1,
        HostKey::Digit1 => 2,
        HostKey::Digit2 => 3,
        HostKey::Digit3 => 4,
        HostKey::Digit4 => 5,
        HostKey::Digit5 => 6,
        HostKey::Digit6 => 7,
        HostKey::Digit7 => 8,
        HostKey::Digit8 => 9,
        HostKey::Digit9 => 10,
        HostKey::Digit0 => 11,
        HostKey::Minus => 12,
        HostKey::Equal => 13,
        HostKey::Backspace => 14,
        HostKey::Tab => 15,
        HostKey::KeyQ => 16,
        HostKey::KeyW => 17,
        HostKey::KeyE => 18,
        HostKey::KeyR => 19,
        HostKey::KeyT => 20,
        HostKey::KeyY => 21,
        HostKey::KeyU => 22,
        HostKey::KeyI => 23,
        HostKey::KeyO => 24,
        HostKey::KeyP => 25,
        HostKey::BracketLeft => 26,
        HostKey::BracketRight => 27,
        HostKey::Enter => 28,
        HostKey::ControlLeft => 29,
        HostKey::KeyA => 30,
        HostKey::KeyS => 31,
        HostKey::KeyD => 32,
        HostKey::KeyF => 33,
        HostKey::KeyG => 34,
        HostKey::KeyH => 35,
        HostKey::KeyJ => 36,
        HostKey::KeyK => 37,
        HostKey::KeyL => 38,
        HostKey::Semicolon => 39,
        HostKey::Quote => 40,
        HostKey::Backquote => 41,
        HostKey::ShiftLeft => 42,
        HostKey::Backslash => 43,
        HostKey::KeyZ => 44,
        HostKey::KeyX => 45,
        HostKey::KeyC => 46,
        HostKey::KeyV => 47,
        HostKey::KeyB => 48,
        HostKey::KeyN => 49,
        HostKey::KeyM => 50,
        HostKey::Comma => 51,
        HostKey::Period => 52,
        HostKey::Slash => 53,
        HostKey::ShiftRight => 54,
        HostKey::NumpadMultiply => 55,
        HostKey::AltLeft => 56,
        HostKey::Space => 57,
        HostKey::CapsLock => 58,
        HostKey::F1 => 59,
        HostKey::F2 => 60,
        HostKey::F3 => 61,
        HostKey::F4 => 62,
        HostKey::F5 => 63,
        HostKey::F6 => 64,
        HostKey::F7 => 65,
        HostKey::F8 => 66,
        HostKey::F9 => 67,
        HostKey::F10 => 68,
        HostKey::NumLock => 69,
        HostKey::ScrollLock => 70,
        HostKey::Numpad7 => 71,
        HostKey::Numpad8 => 72,
        HostKey::Numpad9 => 73,
        HostKey::NumpadSubtract => 74,
        HostKey::Numpad4 => 75,
        HostKey::Numpad5 => 76,
        HostKey::Numpad6 => 77,
        HostKey::NumpadAdd => 78,
        HostKey::Numpad1 => 79,
        HostKey::Numpad2 => 80,
        HostKey::Numpad3 => 81,
        HostKey::Numpad0 => 82,
        HostKey::NumpadDecimal => 83,
        HostKey::F11 => 87,
        HostKey::F12 => 88,
        HostKey::NumpadEnter => 96,
        HostKey::ControlRight => 97,
        HostKey::NumpadDivide => 98,
        HostKey::AltRight => 100,
        HostKey::Home => 102,
        HostKey::ArrowUp => 103,
        HostKey::PageUp => 104,
        HostKey::ArrowLeft => 105,
        HostKey::ArrowRight => 106,
        HostKey::End => 107,
        HostKey::ArrowDown => 108,
        HostKey::PageDown => 109,
        HostKey::Insert => 110,
        HostKey::Delete => 111,
    }
}

/// The Linux key code of `k`; every one of them is a key that the guest's
/// keyboard reports.
pub fn linux_key(k: HostKey) -> (r: u16)
    ensures
        r == linux_key_spec(k),
        in_set(CodeSet::Keys, r as int),
{
    match k {
        HostKey::Escape => 1,
        HostKey::Digit1 => 2,
        HostKey::Digit2 => 3,
        HostKey::Digit3 => 4,
        HostKey::Digit4 => 5,
        HostKey::Digit5 => 6,
        HostKey::Digit6 => 7,
        HostKey::Digit7 => 8,
        HostKey::Digit8 => 9,
        HostKey::Digit9 => 10,
        HostKey::Digit0 => 11,
        HostKey::Minus => 12,
        HostKey::Equal => 13,
        HostKey::Backspace => 14,
        HostKey::Tab => 15,
        HostKey::KeyQ => 16,
        HostKey::KeyW => 17,
        HostKey::KeyE => 18,
        HostKey::KeyR => 19,
        HostKey::KeyT => 20,
        HostKey::KeyY => 21,
        HostKey::KeyU => 22,
        HostKey::KeyI => 23,
        HostKey::KeyO => 24,
        HostKey::KeyP => 25,
        HostKey::BracketLeft => 26,
        HostKey::BracketRight => 27,
        HostKey::Enter => 28,
        HostKey::ControlLeft => 29,
        HostKey::KeyA => 30,
        HostKey::KeyS => 31,
        HostKey::KeyD => 32,
        HostKey::KeyF => 33,
        HostKey::KeyG => 34,
        HostKey::KeyH => 35,
        HostKey::KeyJ => 36,
        HostKey::KeyK => 37,
        HostKey::KeyL => 38,
        HostKey::Semicolon => 39,
        HostKey::Quote => 40,
        HostKey::Backquote => 41,
        HostKey::ShiftLeft => 42,
        HostKey::Backslash => 43,
        HostKey::KeyZ => 44,
        HostKey::KeyX => 45,
        HostKey::KeyC => 46,
        HostKey::KeyV => 47,
        HostKey::KeyB => 48,
        HostKey::KeyN => 49,
        HostKey::KeyM => 50,
        HostKey::Comma => 51,
        HostKey::Period => 52,
        HostKey::Slash => 53,
        HostKey::ShiftRight => 54,
        HostKey::NumpadMultiply => 55,
        HostKey::AltLeft => 56,
        HostKey::Space => 57,
        HostKey::CapsLock => 58,
        HostKey::F1 => 59,
        HostKey::F2 => 60,
        HostKey::F3 => 61,
        HostKey::F4 => 62,
        HostKey::F5 => 63,
        HostKey::F6 => 64,
        HostKey::F7 => 65,
        HostKey::F8 => 66,
        HostKey::F9 => 67,
        HostKey::F10 => 68,
        HostKey::NumLock => 69,
        HostKey::ScrollLock => 70,
        HostKey::Numpad7 => 71,
        HostKey::Numpad8 => 72,
        HostKey::Numpad9 => 73,
        HostKey::NumpadSubtract => 74,
        HostKey::Numpad4 => 75,
        HostKey::Numpad5 => 76,
        HostKey::Numpad6 => 77,
        HostKey::NumpadAdd => 78,
        HostKey::Numpad1 => 79,
        HostKey::Numpad2 => 80,
        HostKey::Numpad3 => 81,
        HostKey::Numpad0 => 82,
        HostKey::NumpadDecimal => 83,
        HostKey::F11 => 87,
        HostKey::F12 => 88,
        HostKey::NumpadEnter => 96,
        HostKey::ControlRight => 97,
        HostKey::NumpadDivide => 98,
        HostKey::AltRight => 100,
        HostKey::Home => 102,
        HostKey::ArrowUp => 103,
        HostKey::PageUp => 104,
        HostKey::ArrowLeft => 105,
        HostKey::ArrowRight => 106,
        HostKey::End => 107,
        HostKey::ArrowDown => 108,
        HostKey::PageDown => 109,
        HostKey::Insert => 110,
        HostKey::Delete => 111,
    }
}

} // verus!
