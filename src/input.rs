use vstd::prelude::*;

verus! {

/// Whether a key or button is held.
#[derive(Copy, Clone, Debug, PartialEq, Eq, Structural, Hash)]
pub enum State {
    Up,
    Down,
}

/// Mouse buttons, numbered as the browser numbers them.
#[derive(Copy, Clone, Debug, PartialEq, Eq, Structural, Hash)]
pub enum Button {
    Left,
    Middle,
    Right,
    X1,
    X2,
}

/// Number of button slots.
pub const BUTTON_COUNT: usize = 5;

/// Number of key code slots.
pub const KEY_CODE_COUNT: usize = 256;

impl Button {
    pub open spec fn spec_code(self) -> int {
        match self {
            Button::Left => 0,
            Button::Middle => 1,
            Button::Right => 2,
            Button::X1 => 3,
            Button::X2 => 4,
        }
    }

    /// The browser's number for the button.
    pub fn code(&self) -> (c: usize)
        ensures
            c == self.spec_code(),
            c < BUTTON_COUNT,
    {
        match self {
            Button::Left => 0,
            Button::Middle => 1,
            Button::Right => 2,
            Button::X1 => 3,
            Button::X2 => 4,
        }
    }

    /// The button the browser numbers `code`, if any.
    pub fn from_code(code: i16) -> (b: Option<Button>)
        ensures
            b matches Some(k) ==> k.spec_code() == code,
            b is None ==> forall|k: Button| #[trigger] k.spec_code() != code,
    {
        match code {
            0 => Some(Button::Left),
            1 => Some(Button::Middle),
            2 => Some(Button::Right),
            3 => Some(Button::X1),
            4 => Some(Button::X2),
            _ => None,
        }
    }
}

/// Keyboard keys, numbered by their browser key codes.
#[derive(Copy, Clone, Debug, PartialEq, Eq, Structural, Hash)]
pub enum Key {
    Backspace,
    Tab,
    Enter,
    Shift,
    Ctrl,
    Alt,
    Pause,
    CapsLock,
    Escape,
    Space,
    PageUp,
    PageDown,
    End,
    Home,
    LeftArrow,
    UpArrow,
    RightArrow,
    DownArrow,
    PrintScreen,
    Insert,
    Delete,
    Num0,
    Num1,
    Num2,
    Num3,
    Num4,
    Num5,
    Num6,
    Num7,
    Num8,
    Num9,
    A,
    B,
    C,
    D,
    E,
    F,
    G,
    H,
    I,
    J,
    K,
    L,
    M,
    N,
    O,
    P,
    Q,
    R,
    S,
    T,
    U,
    V,
    W,
    X,
    Y,
    Z,
    LeftWindowKey,
    RightWindowKey,
    SelectKey,
    Numpad0,
    Numpad1,
    Numpad2,
    Numpad3,
    Numpad4,
    Numpad5,
    Numpad6,
    Numpad7,
    Numpad8,
    Numpad9,
    Multiply,
    Add,
    Subtract,
    DecimalPoint,
    Divide,
    F1,
    F2,
    F3,
    F4,
    F5,
    F6,
    F7,
    F8,
    F9,
    F10,
    F11,
    F12,
    NumLock,
    ScrollLock,
    SemiColon,
    Equal,
    Comma,
    Dash,
    Period,
    ForwardSlash,
    Backquote,
    OpenBracket,
    BackSlash,
    CloseBracket,
    SingleQuote,
}

impl Key {
    /// The browser key code of the key.
    pub open spec fn spec_code(self) -> int {
        match self {
            Key::Backspace => 8,
            Key::Tab => 9,
            Key::Enter => 13,
            Key::Shift => 16,
            Key::Ctrl => 17,
            Key::Alt => 18,
            Key::Pause => 19,
            Key::CapsLock => 20,
            Key::Escape => 27,
            Key::Space => 32,
            Key::PageUp => 33,
            Key::PageDown => 34,
            Key::End => 35,
            Key::Home => 36,
            Key::LeftArrow => 37,
            Key::UpArrow => 38,
            Key::RightArrow => 39,
            Key::DownArrow => 40,
            Key::PrintScreen => 44,
            Key::Insert => 45,
            Key::Delete => 46,
            Key::Num0 => 48,
            Key::Num1 => 49,
            Key::Num2 => 50,
            Key::Num3 => 51,
            Key::Num4 => 52,
            Key::Num5 => 53,
            Key::Num6 => 54,
            Key::Num7 => 55,
            Key::Num8 => 56,
            Key::Num9 => 57,
            Key::A => 65,
            Key::B => 66,
            Key::C => 67,
            Key::D => 68,
            Key::E => 69,
            Key::F => 70,
            Key::G => 71,
            Key::H => 72,
            Key::I => 73,
            Key::J => 74,
            Key::K => 75,
            Key::L => 76,
            Key::M => 77,
            Key::N => 78,
            Key::O => 79,
            Key::P => 80,
            Key::Q => 81,
            Key::R => 82,
            Key::S => 83,
            Key::T => 84,
            Key::U => 85,
            Key::V => 86,
            Key::W => 87,
            Key::X => 88,
            Key::Y => 89,
            Key::Z => 90,
            Key::LeftWindowKey => 91,
            Key::RightWindowKey => 92,
            Key::SelectKey => 93,
            Key::Numpad0 => 96,
            Key::Numpad1 => 97,
            Key::Numpad2 => 98,
            Key::Numpad3 => 99,
            Key::Numpad4 => 100,
            Key::Numpad5 => 101,
            Key::Numpad6 => 102,
            Key::Numpad7 => 103,
            Key::Numpad8 => 104,
            Key::Numpad9 => 105,
            Key::Multiply => 106,
            Key::Add => 107,
            Key::Subtract => 109,
            Key::DecimalPoint => 110,
            Key::Divide => 111,
            Key::F1 => 112,
            Key::F2 => 113,
            Key::F3 => 114,
            Key::F4 => 115,
            Key::F5 => 116,
            Key::F6 => 117,
            Key::F7 => 118,
            Key::F8 => 119,
            Key::F9 => 120,
            Key::F10 => 121,
            Key::F11 => 122,
            Key::F12 => 123,
            Key::NumLock => 144,
            Key::ScrollLock => 145,
            Key::SemiColon => 186,
            Key::Equal => 187,
            Key::Comma => 188,
            Key::Dash => 189,
            Key::Period => 190,
            Key::ForwardSlash => 191,
            Key::Backquote => 192,
            Key::OpenBracket => 219,
            Key::BackSlash => 220,
            Key::CloseBracket => 221,
            Key::SingleQuote => 222,
        }
    }

    /// The browser key code of the key.
    pub fn code(&self) -> (c: usize)
        ensures
            c == self.spec_code(),
            c < KEY_CODE_COUNT,
    {
        match self {
            Key::Backspace => 8,
            Key::Tab => 9,
            Key::Enter => 13,
            Key::Shift => 16,
            Key::Ctrl => 17,
            Key::Alt => 18,
            Key::Pause => 19,
            Key::CapsLock => 20,
            Key::Escape => 27,
            Key::Space => 32,
            Key::PageUp => 33,
            Key::PageDown => 34,
            Key::End => 35,
            Key::Home => 36,
            Key::LeftArrow => 37,
            Key::UpArrow => 38,
            Key::RightArrow => 39,
            Key::DownArrow => 40,
            Key::PrintScreen => 44,
            Key::Insert => 45,
            Key::Delete => 46,
            Key::Num0 => 48,
            Key::Num1 => 49,
            Key::Num2 => 50,
            Key::Num3 => 51,
            Key::Num4 => 52,
            Key::Num5 => 53,
            Key::Num6 => 54,
            Key::Num7 => 55,
            Key::Num8 => 56,
            Key::Num9 => 57,
            Key::A => 65,
            Key::B => 66,
            Key::C => 67,
            Key::D => 68,
            Key::E => 69,
            Key::F => 70,
            Key::G => 71,
            Key::H => 72,
            Key::I => 73,
            Key::J => 74,
            Key::K => 75,
            Key::L => 76,
            Key::M => 77,
            Key::N => 78,
            Key::O => 79,
            Key::P => 80,
            Key::Q => 81,
            Key::R => 82,
            Key::S => 83,
            Key::T => 84,
            Key::U => 85,
            Key::V => 86,
            Key::W => 87,
            Key::X => 88,
            Key::Y => 89,
            Key::Z => 90,
            Key::LeftWindowKey => 91,
            Key::RightWindowKey => 92,
            Key::SelectKey => 93,
            Key::Numpad0 => 96,
            Key::Numpad1 => 97,
            Key::Numpad2 => 98,
            Key::Numpad3 => 99,
            Key::Numpad4 => 100,
            Key::Numpad5 => 101,
            Key::Numpad6 => 102,
            Key::Numpad7 => 103,
            Key::Numpad8 => 104,
            Key::Numpad9 => 105,
            Key::Multiply => 106,
            Key::Add => 107,
            Key::Subtract => 109,
            Key::DecimalPoint => 110,
            Key::Divide => 111,
            Key::F1 => 112,
            Key::F2 => 113,
            Key::F3 => 114,
            Key::F4 => 115,
            Key::F5 => 116,
            Key::F6 => 117,
            Key::F7 => 118,
            Key::F8 => 119,
            Key::F9 => 120,
            Key::F10 => 121,
            Key::F11 => 122,
            Key::F12 => 123,
            Key::NumLock => 144,
            Key::ScrollLock => 145,
            Key::SemiColon => 186,
            Key::Equal => 187,
            Key::Comma => 188,
            Key::Dash => 189,
            Key::Period => 190,
            Key::ForwardSlash => 191,
            Key::Backquote => 192,
            Key::OpenBracket => 219,
            Key::BackSlash => 220,
            Key::CloseBracket => 221,
            Key::SingleQuote => 222,
        }
    }

    /// The key with browser key code `code`, if any.
    pub fn from_code(code: u32) -> (k: Option<Key>)
        ensures
            k matches Some(key) ==> key.spec_code() == code,
            k is None ==> forall|key: Key| #[trigger] key.spec_code() != code,
    {
        match code {
            8 => Some(Key::Backspace),
            9 => Some(Key::Tab),
            13 => Some(Key::Enter),
            16 => Some(Key::Shift),
            17 => Some(Key::Ctrl),
            18 => Some(Key::Alt),
            19 => Some(Key::Pause),
            20 => Some(Key::CapsLock),
            27 => Some(Key::Escape),
            32 => Some(Key::Space),
            33 => Some(Key::PageUp),
            34 => Some(Key::PageDown),
            35 => Some(Key::End),
            36 => Some(Key::Home),
            37 => Some(Key::LeftArrow),
            38 => Some(Key::UpArrow),
            39 => Some(Key::RightArrow),
            40 => Some(Key::DownArrow),
            44 => Some(Key::PrintScreen),
            45 => Some(Key::Insert),
            46 => Some(Key::Delete),
            48 => Some(Key::Num0),
            49 => Some(Key::Num1),
            50 => Some(Key::Num2),
            51 => Some(Key::Num3),
            52 => Some(Key::Num4),
            53 => Some(Key::Num5),
            54 => Some(Key::Num6),
            55 => Some(Key::Num7),
            56 => Some(Key::Num8),
            57 => Some(Key::Num9),
            65 => Some(Key::A),
            66 => Some(Key::B),
            67 => Some(Key::C),
            68 => Some(Key::D),
            69 => Some(Key::E),
            70 => Some(Key::F),
            71 => Some(Key::G),
            72 => Some(Key::H),
            73 => Some(Key::I),
            74 => Some(Key::J),
            75 => Some(Key::K),
            76 => Some(Key::L),
            77 => Some(Key::M),
            78 => Some(Key::N),
            79 => Some(Key::O),
            80 => Some(Key::P),
            81 => Some(Key::Q),
            82 => Some(Key::R),
            83 => Some(Key::S),
            84 => Some(Key::T),
            85 => Some(Key::U),
            86 => Some(Key::V),
            87 => Some(Key::W),
            88 => Some(Key::X),
            89 => Some(Key::Y),
            90 => Some(Key::Z),
            91 => Some(Key::LeftWindowKey),
            92 => Some(Key::RightWindowKey),
            93 => Some(Key::SelectKey),
            96 => Some(Key::Numpad0),
            97 => Some(Key::Numpad1),
            98 => Some(Key::Numpad2),
            99 => Some(Key::Numpad3),
            100 => Some(Key::Numpad4),
            101 => Some(Key::Numpad5),
            102 => Some(Key::Numpad6),
            103 => Some(Key::Numpad7),
            104 => Some(Key::Numpad8),
            105 => Some(Key::Numpad9),
            106 => Some(Key::Multiply),
            107 => Some(Key::Add),
            109 => Some(Key::Subtract),
            110 => Some(Key::DecimalPoint),
            111 => Some(Key::Divide),
            112 => Some(Key::F1),
            113 => Some(Key::F2),
            114 => Some(Key::F3),
            115 => Some(Key::F4),
            116 => Some(Key::F5),
            117 => Some(Key::F6),
            118 => Some(Key::F7),
            119 => Some(Key::F8),
            120 => Some(Key::F9),
            121 => Some(Key::F10),
            122 => Some(Key::F11),
            123 => Some(Key::F12),
            144 => Some(Key::NumLock),
            145 => Some(Key::ScrollLock),
            186 => Some(Key::SemiColon),
            187 => Some(Key::Equal),
            188 => Some(Key::Comma),
            189 => Some(Key::Dash),
            190 => Some(Key::Period),
            191 => Some(Key::ForwardSlash),
            192 => Some(Key::Backquote),
            219 => Some(Key::OpenBracket),
            220 => Some(Key::BackSlash),
            221 => Some(Key::CloseBracket),
            222 => Some(Key::SingleQuote),
            _ => None,
        }
    }
}

/// One frame's input: current and previous key and button states, and a cursor kept within
/// half the frame buffer on each axis.
pub struct Input {
    key_state: Vec<State>,
    last_key_state: Vec<State>,
    button_state: Vec<State>,
    last_button_state: Vec<State>,
    cursor_x: i64,
    cursor_y: i64,
    max_cursor_x: i64,
    max_cursor_y: i64,
}

impl Input {
    pub closed spec fn wf(&self) -> bool {
        &&& self.key_state@.len() == KEY_CODE_COUNT
        &&& self.last_key_state@.len() == KEY_CODE_COUNT
        &&& self.button_state@.len() == BUTTON_COUNT
        &&& self.last_button_state@.len() == BUTTON_COUNT
        &&& 0 <= self.max_cursor_x
        &&& 0 <= self.max_cursor_y
        &&& -self.max_cursor_x <= self.cursor_x <= self.max_cursor_x
        &&& -self.max_cursor_y <= self.cursor_y <= self.max_cursor_y
    }

    pub closed spec fn key(&self, k: Key) -> State {
        self.key_state@[k.spec_code()]
    }

    pub closed spec fn last_key(&self, k: Key) -> State {
        self.last_key_state@[k.spec_code()]
    }

    pub closed spec fn button(&self, b: Button) -> State {
        self.button_state@[b.spec_code()]
    }

    pub closed spec fn last_button(&self, b: Button) -> State {
        self.last_button_state@[b.spec_code()]
    }

    pub closed spec fn cursor_x(&self) -> int {
        self.cursor_x as int
    }

    pub closed spec fn cursor_y(&self) -> int {
        self.cursor_y as int
    }

    /// The cursor's bound on each side of 0, horizontally.
    pub closed spec fn cursor_limit_x(&self) -> int {
        self.max_cursor_x as int
    }

    /// The cursor's bound on each side of 0, vertically.
    pub closed spec fn cursor_limit_y(&self) -> int {
        self.max_cursor_y as int
    }

    /// Everything but the cursor is the same.
    pub open spec fn same_keys(&self, other: &Input) -> bool {
        &&& forall|k: Key| #[trigger] self.key(k) == other.key(k)
        &&& forall|k: Key| #[trigger] self.last_key(k) == other.last_key(k)
        &&& forall|b: Button| #[trigger] self.button(b) == other.button(b)
        &&& forall|b: Button| #[trigger] self.last_button(b) == other.last_button(b)
    }

    /// All keys and buttons up, now and before; the cursor at 0 with no room to move.
    pub fn new() -> (i: Input)
        ensures
            i.wf(),
            forall|k: Key| #[trigger] i.key(k) == State::Up && i.last_key(k) == State::Up,
            forall|b: Button| #[trigger] i.button(b) == State::Up && i.last_button(b) == State::Up,
            i.cursor_x() == 0,
            i.cursor_y() == 0,
            i.cursor_limit_x() == 0,
            i.cursor_limit_y() == 0,
    {
        Input {
            key_state: vec![State::Up; KEY_CODE_COUNT],
            last_key_state: vec![State::Up; KEY_CODE_COUNT],
            button_state: vec![State::Up; BUTTON_COUNT],
            last_button_state: vec![State::Up; BUTTON_COUNT],
            cursor_x: 0,
            cursor_y: 0,
            max_cursor_x: 0,
            max_cursor_y: 0,
        }
    }

    pub fn get_key_state(&self, key: Key) -> (s: State)
        requires
            self.wf(),
        ensures
            s == self.key(key),
    {
        self.key_state[key.code()]
    }

    pub fn get_last_key_state(&self, key: Key) -> (s: State)
        requires
            self.wf(),
        ensures
            s == self.last_key(key),
    {
        self.last_key_state[key.code()]
    }

    /// The key went down since the previous frame.
    pub fn key_pressed(&self, key: Key) -> (r: bool)
        requires
            self.wf(),
        ensures
            r == (self.key(key) == State::Down && self.last_key(key) != State::Down),
    {
        let last_state = self.get_last_key_state(key);
        let state = self.get_key_state(key);
        state == State::Down && last_state != state
    }

    pub fn get_button_state(&self, button: Button) -> (s: State)
        requires
            self.wf(),
        ensures
            s == self.button(button),
    {
        self.button_state[button.code()]
    }

    pub fn get_last_button_state(&self, button: Button) -> (s: State)
        requires
            self.wf(),
        ensures
            s == self.last_button(button),
    {
        self.last_button_state[button.code()]
    }

    /// The button went down since the previous frame.
    pub fn button_pressed(&self, button: Button) -> (r: bool)
        requires
            self.wf(),
        ensures
            r == (self.button(button) == State::Down && self.last_button(button) != State::Down),
    {
        let last_state = self.get_last_button_state(button);
        let state = self.get_button_state(button);
        state == State::Down && last_state != state
    }

    pub fn get_cursor_position_x(&self) -> (x: i64)
        ensures
            x == self.cursor_x(),
    {
        self.cursor_x
    }

    pub fn get_cursor_position_y(&self) -> (y: i64)
        ensures
            y == self.cursor_y(),
    {
        self.cursor_y
    }

    pub fn get_cursor_position(&self) -> (p: (i64, i64))
        ensures
            p.0 == self.cursor_x(),
            p.1 == self.cursor_y(),
    {
        (self.cursor_x, self.cursor_y)
    }

    /// Records that `key` went up or down.
    pub fn set_key_state(&mut self, key: Key, state: State)
        requires
            old(self).wf(),
        ensures
            final(self).wf(),
            final(self).key(key) == state,
            forall|k: Key| k != key ==> #[trigger] final(self).key(k) == old(self).key(k),
            forall|k: Key| #[trigger] final(self).last_key(k) == old(self).last_key(k),
            forall|b: Button| #[trigger] final(self).button(b) == old(self).button(b),
            forall|b: Button| #[trigger] final(self).last_button(b) == old(self).last_button(b),
            final(self).cursor_x() == old(self).cursor_x(),
            final(self).cursor_y() == old(self).cursor_y(),
            final(self).cursor_limit_x() == old(self).cursor_limit_x(),
            final(self).cursor_limit_y() == old(self).cursor_limit_y(),
    {
        let c = key.code();
        self.key_state.set(c, state);
        assert forall|k: Key| k != key implies #[trigger] self.key(k) == old(self).key(k) by {
            Self::lemma_key_codes_distinct(k, key);
        }
    }

    /// Distinct keys have distinct codes.
    pub proof fn lemma_key_codes_distinct(a: Key, b: Key)
        ensures
            a != b ==> a.spec_code() != b.spec_code(),
    {
    }

    /// Records that `button` went up or down.
    pub fn set_button_state(&mut self, button: Button, state: State)
        requires
            old(self).wf(),
        ensures
            final(self).wf(),
            final(self).button(button) == state,
            forall|b: Button| b != button ==> #[trigger] final(self).button(b) == old(self).button(b),
            forall|k: Key| #[trigger] final(self).key(k) == old(self).key(k),
            forall|k: Key| #[trigger] final(self).last_key(k) == old(self).last_key(k),
            forall|b: Button| #[trigger] final(self).last_button(b) == old(self).last_button(b),
            final(self).cursor_x() == old(self).cursor_x(),
            final(self).cursor_y() == old(self).cursor_y(),
            final(self).cursor_limit_x() == old(self).cursor_limit_x(),
            final(self).cursor_limit_y() == old(self).cursor_limit_y(),
    {
        let c = button.code();
        self.button_state.set(c, state);
    }

    /// Ends a frame: the current states become the previous ones.
    pub fn update_last_states(&mut self)
        requires
            old(self).wf(),
        ensures
            final(self).wf(),
            forall|k: Key| #[trigger] final(self).last_key(k) == old(self).key(k),
            forall|b: Button| #[trigger] final(self).last_button(b) == old(self).button(b),
            forall|k: Key| #[trigger] final(self).key(k) == old(self).key(k),
            forall|b: Button| #[trigger] final(self).button(b) == old(self).button(b),
            final(self).cursor_x() == old(self).cursor_x(),
            final(self).cursor_y() == old(self).cursor_y(),
            final(self).cursor_limit_x() == old(self).cursor_limit_x(),
            final(self).cursor_limit_y() == old(self).cursor_limit_y(),
    {
        let mut i: usize = 0;
        while i < KEY_CODE_COUNT
            invariant
                self.wf(),
                i <= KEY_CODE_COUNT,
                self.key_state@ == old(self).key_state@,
                self.button_state@ == old(self).button_state@,
                self.last_button_state@ == old(self).last_button_state@,
                self.cursor_x == old(self).cursor_x,
                self.cursor_y == old(self).cursor_y,
                self.max_cursor_x == old(self).max_cursor_x,
                self.max_cursor_y == old(self).max_cursor_y,
                forall|j: int| 0 <= j < i ==> #[trigger] self.last_key_state@[j] == self.key_state@[j],
            decreases KEY_CODE_COUNT - i,
        {
            let s = self.key_state[i];
            self.last_key_state.set(i, s);
            i = i + 1;
        }
        let mut i: usize = 0;
        while i < BUTTON_COUNT
            invariant
                self.wf(),
                i <= BUTTON_COUNT,
                self.key_state@ == old(self).key_state@,
                self.button_state@ == old(self).button_state@,
                self.cursor_x == old(self).cursor_x,
                self.cursor_y == old(self).cursor_y,
                self.max_cursor_x == old(self).max_cursor_x,
                self.max_cursor_y == old(self).max_cursor_y,
                forall|j: int| 0 <= j < KEY_CODE_COUNT ==> #[trigger] self.last_key_state@[j] == self.key_state@[j],
                forall|j: int| 0 <= j < i ==> #[trigger] self.last_button_state@[j] == self.button_state@[j],
            decreases BUTTON_COUNT - i,
        {
            let s = self.button_state[i];
            self.last_button_state.set(i, s);
            i = i + 1;
        }
        assert forall|k: Key| #[trigger] self.last_key(k) == old(self).key(k) by {
            assert(0 <= k.spec_code() < KEY_CODE_COUNT);
        }
        assert forall|b: Button| #[trigger] self.last_button(b) == old(self).button(b) by {
            assert(0 <= b.spec_code() < BUTTON_COUNT);
        }
    }

    /// Limits the cursor to half the frame buffer on each axis, around 0, and moves it inside.
    pub fn set_cursor_bounds(&mut self, buffer_width: u32, buffer_height: u32)
        requires
            old(self).wf(),
        ensures
            final(self).wf(),
            final(self).same_keys(old(self)),
            final(self).cursor_limit_x() == buffer_width / 2,
            final(self).cursor_limit_y() == buffer_height / 2,
            final(self).cursor_x() == clamp(old(self).cursor_x(), buffer_width as int / 2),
            final(self).cursor_y() == clamp(old(self).cursor_y(), buffer_height as int / 2),
    {
        self.max_cursor_x = (buffer_width / 2) as i64;
        self.max_cursor_y = (buffer_height / 2) as i64;
        self.cursor_x = clamp_to(self.cursor_x as i128, self.max_cursor_x);
        self.cursor_y = clamp_to(self.cursor_y as i128, self.max_cursor_y);
    }

    /// Moves the cursor by a relative motion, `y` inverted so that up is positive, and keeps it
    /// within its bounds.
    pub fn move_cursor(&mut self, dx: i64, dy: i64)
        requires
            old(self).wf(),
        ensures
            final(self).wf(),
            final(self).same_keys(old(self)),
            final(self).cursor_limit_x() == old(self).cursor_limit_x(),
            final(self).cursor_limit_y() == old(self).cursor_limit_y(),
            final(self).cursor_x() == clamp(old(self).cursor_x() + dx, old(self).cursor_limit_x()),
            final(self).cursor_y() == clamp(old(self).cursor_y() - dy, old(self).cursor_limit_y()),
    {
        self.cursor_x = clamp_to(self.cursor_x as i128 + dx as i128, self.max_cursor_x);
        self.cursor_y = clamp_to(self.cursor_y as i128 - dy as i128, self.max_cursor_y);
    }
}

/// `v` limited to `-limit..=limit`.
pub open spec fn clamp(v: int, limit: int) -> int {
    if v > limit {
        limit
    } else if v < -limit {
        -limit
    } else {
        v
    }
}

fn clamp_to(v: i128, limit: i64) -> (r: i64)
    requires
        limit >= 0,
        -0x1_0000_0000_0000_0000_0000 <= v <= 0x1_0000_0000_0000_0000_0000,
    ensures
        r == clamp(v as int, limit as int),
{
    if v > limit as i128 {
        limit
    } else if v < -(limit as i128) {
        -limit
    } else {
        v as i64
    }
}

} // verus!
