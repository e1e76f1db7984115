//! Key-binding resolver: single keys and multi-key chords resolve to an
//! app-defined action type. Apps compose an `InputBinder` into their own
//! state and feed it every input event.
use vstd::prelude::*;
use crate::time::{duration_as_nanos, duration_nanos};

verus! {

/// Media keys, as the terminal reports them.
#[derive(Clone, Copy, Debug, PartialEq, Eq, Hash, Structural)]
pub enum MediaKeyCode {
    Play,
    Pause,
    PlayPause,
    Reverse,
    Stop,
    FastForward,
    Rewind,
    TrackNext,
    TrackPrevious,
    Record,
    LowerVolume,
    RaiseVolume,
    MuteVolume,
}

/// A modifier key pressed on its own.
#[derive(Clone, Copy, Debug, PartialEq, Eq, Hash, Structural)]
pub enum ModifierKeyCode {
    LeftShift,
    LeftControl,
    LeftAlt,
    LeftSuper,
    LeftHyper,
    LeftMeta,
    RightShift,
    RightControl,
    RightAlt,
    RightSuper,
    RightHyper,
    RightMeta,
    IsoLevel3Shift,
    IsoLevel5Shift,
}

/// A key, as the terminal reports it.
#[derive(Clone, Copy, Debug, PartialEq, Eq, Hash, Structural)]
pub enum KeyCode {
    Backspace,
    Enter,
    Left,
    Right,
    Up,
    Down,
    Home,
    End,
    PageUp,
    PageDown,
    Tab,
    BackTab,
    Delete,
    Insert,
    /// Function key `F(n)`.
    F(u8),
    /// A character key.
    Char(char),
    Null,
    Esc,
    CapsLock,
    ScrollLock,
    NumLock,
    PrintScreen,
    Pause,
    Menu,
    KeypadBegin,
    Media(MediaKeyCode),
    Modifier(ModifierKeyCode),
}

/// A set of modifier keys (shift, control, ...), one bit each.
#[derive(Clone, Copy, Debug, PartialEq, Eq, Hash, Structural)]
pub struct KeyModifiers {
    bits: u8,
}

impl KeyModifiers {
    /// No modifiers.
    pub fn none() -> (r: KeyModifiers)
        ensures
            r.spec_bits() == 0,
    {
        KeyModifiers { bits: 0 }
    }

    /// Shift.
    pub fn shift() -> (r: KeyModifiers)
        ensures
            r.spec_bits() == 1,
    {
        KeyModifiers { bits: 1 }
    }

    /// Control.
    pub fn control() -> (r: KeyModifiers)
        ensures
            r.spec_bits() == 2,
    {
        KeyModifiers { bits: 2 }
    }

    /// Alt.
    pub fn alt() -> (r: KeyModifiers)
        ensures
            r.spec_bits() == 4,
    {
        KeyModifiers { bits: 4 }
    }

    /// Super.
    pub fn super_key() -> (r: KeyModifiers)
        ensures
            r.spec_bits() == 8,
    {
        KeyModifiers { bits: 8 }
    }

    /// Hyper.
    pub fn hyper() -> (r: KeyModifiers)
        ensures
            r.spec_bits() == 16,
    {
        KeyModifiers { bits: 16 }
    }

    /// Meta.
    pub fn meta() -> (r: KeyModifiers)
        ensures
            r.spec_bits() == 32,
    {
        KeyModifiers { bits: 32 }
    }

    /// The bit set.
    pub closed spec fn spec_bits(self) -> u8 {
        self.bits
    }

    /// Every modifier in `other` is also in `self`.
    pub open spec fn spec_contains(self, other: KeyModifiers) -> bool {
        self.spec_bits() & other.spec_bits() == other.spec_bits()
    }

    /// The modifiers whose bits are set in `bits`.
    pub fn from_bits(bits: u8) -> (r: KeyModifiers)
        ensures
            r.spec_bits() == bits,
    {
        KeyModifiers { bits }
    }

    /// The raw bit set.
    pub fn bits(&self) -> (r: u8)
        ensures
            r == self.spec_bits(),
    {
        self.bits
    }

    /// Whether every modifier in `other` is also in `self`.
    pub fn contains(&self, other: KeyModifiers) -> (r: bool)
        ensures
            r == self.spec_contains(other),
    {
        self.bits & other.bits == other.bits
    }
}

/// Every set of modifiers contains itself.
proof fn lemma_contains_self(m: KeyModifiers)
    ensures
        m.spec_contains(m),
{
    let b = m.bits;
    assert(b & b == b) by (bit_vector);
}

/// Whether a key event is a press, an auto-repeat, or a release.
#[derive(Clone, Copy, Debug, PartialEq, Eq, Hash, Structural)]
pub enum KeyEventKind {
    Press,
    Repeat,
    Release,
}

/// One key event: the key, the modifiers held, and its kind.
#[derive(Clone, Copy, Debug, PartialEq, Eq, Hash, Structural)]
pub struct KeyEvent {
    pub code: KeyCode,
    pub modifiers: KeyModifiers,
    pub kind: KeyEventKind,
}

impl KeyEvent {
    /// A key press.
    pub fn new(code: KeyCode, modifiers: KeyModifiers) -> (r: KeyEvent)
        ensures
            r == (KeyEvent { code, modifiers, kind: KeyEventKind::Press }),
    {
        KeyEvent { code, modifiers, kind: KeyEventKind::Press }
    }

    /// A key event of the given kind.
    pub fn new_with_kind(code: KeyCode, modifiers: KeyModifiers, kind: KeyEventKind) -> (r:
        KeyEvent)
        ensures
            r == (KeyEvent { code, modifiers, kind }),
    {
        KeyEvent { code, modifiers, kind }
    }
}

/// An input event, as far as key binding is concerned.
#[derive(Clone, Debug, PartialEq, Eq)]
pub enum Event {
    FocusGained,
    FocusLost,
    Key(KeyEvent),
    /// A mouse event (its details play no part in key binding).
    Mouse,
    Paste(String),
    Resize(u16, u16),
}

/// A single key press to match against: code + modifiers.
#[derive(Clone, Copy, Debug, PartialEq, Eq, Structural)]
pub struct KeyPress {
    /// The key code.
    pub code: KeyCode,
    /// Required modifiers — matched via "actual contains required".
    pub modifiers: KeyModifiers,
}

impl KeyPress {
    /// A key press with no required modifiers.
    pub fn plain(code: KeyCode) -> (r: KeyPress)
        ensures
            r.code == code,
            r.modifiers.spec_bits() == 0,
    {
        KeyPress { code, modifiers: KeyModifiers::none() }
    }
}

impl From<KeyPress> for Vec<KeyPress> {
    fn from(k: KeyPress) -> (r: Vec<KeyPress>)
        ensures
            r@ == seq![k],
    {
        let mut v = Vec::new();
        v.push(k);
        assert(v@ =~= seq![k]);
        v
    }
}

impl vstd::std_specs::convert::FromSpecImpl<KeyPress> for Vec<KeyPress> {
    open spec fn obeys_from_spec() -> bool {
        false
    }

    open spec fn from_spec(k: KeyPress) -> Vec<KeyPress> {
        arbitrary()
    }
}

/// `actual` satisfies `required`: same code, and every required
/// modifier held.
pub open spec fn key_press_matches(actual: KeyPress, required: KeyPress) -> bool {
    actual.code == required.code && actual.modifiers.spec_contains(required.modifiers)
}

/// `seq` matches the start of `binding`.
pub open spec fn sequence_starts_with(binding: Seq<KeyPress>, seq: Seq<KeyPress>) -> bool {
    seq.len() <= binding.len() && forall|i: int|
        0 <= i < seq.len() ==> key_press_matches(#[trigger] seq[i], binding[i])
}

/// `seq` matches the whole of `binding`.
pub open spec fn binding_matches(binding: Seq<KeyPress>, seq: Seq<KeyPress>) -> bool {
    binding.len() == seq.len() && sequence_starts_with(binding, seq)
}

/// Binding `i` is the first (earliest registered) one `seq` matches
/// whole.
pub open spec fn is_first_exact<A>(bindings: Seq<(Seq<KeyPress>, A)>, seq: Seq<KeyPress>, i: int) -> bool {
    &&& 0 <= i < bindings.len()
    &&& binding_matches(bindings[i].0, seq)
    &&& forall|j: int| 0 <= j < i ==> !binding_matches(#[trigger] bindings[j].0, seq)
}

/// The action of the first binding `seq` matches whole, if any.
pub open spec fn exact_match<A>(bindings: Seq<(Seq<KeyPress>, A)>, seq: Seq<KeyPress>) -> Option<A> {
    if exists|i: int| is_first_exact(bindings, seq, i) {
        Some(bindings[choose|i: int| is_first_exact(bindings, seq, i)].1)
    } else {
        None
    }
}

/// Some binding is strictly longer than `seq` and starts with it.
pub open spec fn has_prefix_match<A>(bindings: Seq<(Seq<KeyPress>, A)>, seq: Seq<KeyPress>) -> bool {
    exists|i: int|
        0 <= i < bindings.len() && #[trigger] bindings[i].0.len() > seq.len()
            && sequence_starts_with(bindings[i].0, seq)
}

/// The state of an `InputBinder`: its bindings in registration order,
/// the chord in progress, the time since that chord's last key, and the
/// chord timeout (both in nanoseconds).
pub struct InputBinderView<A> {
    pub bindings: Seq<(Seq<KeyPress>, A)>,
    pub pending: Seq<KeyPress>,
    pub pending_elapsed: nat,
    pub chord_timeout: nat,
}

impl<A> InputBinderView<A> {
    /// The pending chord is empty, or a proper prefix of some binding.
    pub open spec fn pending_is_live(self) -> bool {
        self.pending.len() == 0 || has_prefix_match(self.bindings, self.pending)
    }

    /// The state after the chord in progress resets.
    pub open spec fn with_pending(self, pending: Seq<KeyPress>) -> InputBinderView<A> {
        InputBinderView { pending, pending_elapsed: 0, ..self }
    }

    /// What a key press `kp` does: the state after it, and the action
    /// it resolves, if any. The chord in progress extended by `kp` is
    /// tried first (a full match fires, a prefix keeps waiting); failing
    /// that, `kp` alone starts over the same way; failing both, the
    /// chord is dropped.
    pub open spec fn press(self, kp: KeyPress) -> (InputBinderView<A>, Option<A>) {
        let candidate = self.pending.push(kp);
        let fresh = seq![kp];
        if exact_match(self.bindings, candidate) is Some {
            (self.with_pending(Seq::empty()), exact_match(self.bindings, candidate))
        } else if has_prefix_match(self.bindings, candidate) {
            (self.with_pending(candidate), None)
        } else if exact_match(self.bindings, fresh) is Some {
            (self.with_pending(Seq::empty()), exact_match(self.bindings, fresh))
        } else if has_prefix_match(self.bindings, fresh) {
            (self.with_pending(fresh), None)
        } else {
            (self.with_pending(Seq::empty()), None)
        }
    }

    /// What feeding `event` does: key presses go through `press`;
    /// anything else leaves the state alone and resolves nothing.
    pub open spec fn feed(self, event: Event) -> (InputBinderView<A>, Option<A>) {
        match event {
            Event::Key(k) => if k.kind == KeyEventKind::Press {
                self.press(KeyPress { code: k.code, modifiers: k.modifiers })
            } else {
                (self, None)
            },
            _ => (self, None),
        }
    }

    /// What letting `elapsed` nanoseconds pass does: a pending chord
    /// ages, and is dropped once its age reaches the timeout.
    pub open spec fn expire(self, elapsed: nat) -> InputBinderView<A> {
        if self.pending.len() == 0 {
            self
        } else if self.pending_elapsed + elapsed >= self.chord_timeout {
            self.with_pending(Seq::empty())
        } else {
            InputBinderView { pending_elapsed: self.pending_elapsed + elapsed, ..self }
        }
    }
}


/// Law: a key press that neither completes nor extends the chord in
/// progress, and completes no binding on its own, but starts some longer
/// binding, is not lost — it starts a new chord: afterwards exactly that
/// key is pending, and nothing fires.
pub proof fn lemma_breaking_key_starts_new_chord<A>(v: InputBinderView<A>, k: KeyPress)
    requires
        forall|i: int|
            0 <= i < v.bindings.len() ==> !binding_matches(
                #[trigger] v.bindings[i].0,
                v.pending.push(k),
            ),
        forall|i: int|
            0 <= i < v.bindings.len() ==> !(#[trigger] v.bindings[i].0.len() > v.pending.len() + 1
                && sequence_starts_with(v.bindings[i].0, v.pending.push(k))),
        forall|i: int|
            0 <= i < v.bindings.len() ==> !binding_matches(#[trigger] v.bindings[i].0, seq![k]),
        exists|i: int|
            0 <= i < v.bindings.len() && #[trigger] v.bindings[i].0.len() > 1 && key_press_matches(
                k,
                v.bindings[i].0[0],
            ),
    ensures
        v.press(k).0.pending == seq![k],
        v.press(k).0.bindings == v.bindings,
        v.press(k).1 is None,
{
    let c = v.pending.push(k);
    let i = choose|i: int|
        0 <= i < v.bindings.len() && #[trigger] v.bindings[i].0.len() > 1 && key_press_matches(
            k,
            v.bindings[i].0[0],
        );
    assert(seq![k][0] == k);
    assert(sequence_starts_with(v.bindings[i].0, seq![k]));
    assert(has_prefix_match(v.bindings, seq![k]));
    assert(!exists|j: int| is_first_exact(v.bindings, c, j));
    assert(!exists|j: int| is_first_exact(v.bindings, seq![k], j));
    if has_prefix_match(v.bindings, c) {
        let j = choose|j: int|
            0 <= j < v.bindings.len() && #[trigger] v.bindings[j].0.len() > c.len()
                && sequence_starts_with(v.bindings[j].0, c);
        assert(v.bindings[j].0.len() > v.pending.len() + 1);
    }
}

/// Law: a key press that completes some binding — the chord in progress
/// extended by the key matches it whole — fires the earliest registered
/// such binding and clears the chord in progress.
pub proof fn lemma_completed_chord_fires_first<A>(v: InputBinderView<A>, k: KeyPress, i: int)
    requires
        0 <= i < v.bindings.len(),
        binding_matches(v.bindings[i].0, v.pending.push(k)),
        forall|j: int|
            0 <= j < i ==> !binding_matches(#[trigger] v.bindings[j].0, v.pending.push(k)),
    ensures
        v.press(k).1 == Some(v.bindings[i].1),
        v.press(k).0.pending.len() == 0,
{
    let c = v.pending.push(k);
    assert(is_first_exact(v.bindings, c, i));
    let f = choose|j: int| is_first_exact(v.bindings, c, j);
    if f < i {
    } else if f > i {
        assert(!binding_matches(v.bindings[i].0, c));
    }
}

/// Law: whatever a key press resolves, it is the action of a binding that
/// the chord in progress extended by the key, or else the key alone,
/// matches whole — and then no chord is left pending; a press that
/// resolves nothing leaves pending either nothing or a proper prefix of
/// some binding that ends with this key.
pub proof fn lemma_press_outcomes<A>(v: InputBinderView<A>, k: KeyPress)
    ensures
        v.press(k).0.bindings == v.bindings,
        v.press(k).1 matches Some(a) ==> v.press(k).0.pending.len() == 0 && exists|i: int|
            0 <= i < v.bindings.len() && v.bindings[i].1 == a && (binding_matches(
                #[trigger] v.bindings[i].0,
                v.pending.push(k),
            ) || binding_matches(v.bindings[i].0, seq![k])),
        v.press(k).1 is None && v.press(k).0.pending.len() > 0 ==> {
            let p = v.press(k).0.pending;
            &&& (p == v.pending.push(k) || p == seq![k])
            &&& exists|i: int|
                0 <= i < v.bindings.len() && #[trigger] v.bindings[i].0.len() > p.len()
                    && sequence_starts_with(v.bindings[i].0, p)
        },
{
    let c = v.pending.push(k);
    let f = seq![k];
    if exists|i: int| is_first_exact(v.bindings, c, i) {
        let i = choose|i: int| is_first_exact(v.bindings, c, i);
        assert(binding_matches(v.bindings[i].0, c));
    } else if has_prefix_match(v.bindings, c) {
    } else if exists|i: int| is_first_exact(v.bindings, f, i) {
        let i = choose|i: int| is_first_exact(v.bindings, f, i);
        assert(binding_matches(v.bindings[i].0, f));
    }
}

/// Law: whatever is fed, the chord left in progress is empty or a proper
/// prefix of some binding — a dead-end chord never lingers.
pub proof fn lemma_feed_keeps_pending_live<A>(v: InputBinderView<A>, event: Event)
    requires
        v.pending_is_live(),
    ensures
        v.feed(event).0.pending_is_live(),
        v.feed(event).0.bindings == v.bindings,
{
}

/// Law: letting time pass keeps the chord in progress live, and leaves
/// the bindings alone.
pub proof fn lemma_expire_keeps_pending_live<A>(v: InputBinderView<A>, elapsed: nat)
    requires
        v.pending_is_live(),
    ensures
        v.expire(elapsed).pending_is_live(),
        v.expire(elapsed).bindings == v.bindings,
{
}

/// Law: registering another binding keeps the chord in progress live.
pub proof fn lemma_bind_keeps_pending_live<A>(
    v: InputBinderView<A>,
    sequence: Seq<KeyPress>,
    action: A,
)
    requires
        v.pending_is_live(),
    ensures
        (InputBinderView { bindings: v.bindings.push((sequence, action)), ..v }).pending_is_live(),
{
    let w = InputBinderView { bindings: v.bindings.push((sequence, action)), ..v };
    if v.pending.len() > 0 {
        let i = choose|i: int|
            0 <= i < v.bindings.len() && #[trigger] v.bindings[i].0.len() > v.pending.len()
                && sequence_starts_with(v.bindings[i].0, v.pending);
        assert(w.bindings[i] == v.bindings[i]);
    }
}

/// Law: every key press, whatever it resolves to, restarts the chord
/// timer; any other event leaves the binder untouched.
pub proof fn lemma_key_press_restarts_timer<A>(v: InputBinderView<A>, event: Event)
    ensures
        (event matches Event::Key(k) && k.kind == KeyEventKind::Press) ==> v.feed(
            event,
        ).0.pending_elapsed == 0,
        !(event matches Event::Key(k) && k.kind == KeyEventKind::Press) ==> v.feed(event) == (
        v,
        None::<A>,
        ),
{
}

/// Law: once a chord has waited its full timeout, it is dropped.
pub proof fn lemma_expire_drops_stale_chord<A>(v: InputBinderView<A>, elapsed: nat)
    requires
        v.pending_elapsed + elapsed >= v.chord_timeout,
    ensures
        v.expire(elapsed).pending.len() == 0,
        v.pending.len() > 0 ==> v.expire(elapsed).pending_elapsed == 0,
{
}

/// Law: with a single chord bound, feeding that chord's keys in order
/// waits (resolving nothing) until the last key, which resolves the
/// chord's action and clears the chord in progress.
pub proof fn lemma_chord_completes_in_order<A>(
    v: InputBinderView<A>,
    chord: Seq<KeyPress>,
    action: A,
    k: int,
)
    requires
        v.bindings == seq![(chord, action)],
        0 <= k < chord.len(),
        v.pending == chord.take(k),
    ensures
        k + 1 == chord.len() ==> v.press(chord[k]) == (
            v.with_pending(Seq::empty()),
            Some(action),
        ),
        k + 1 < chord.len() ==> v.press(chord[k]) == (v.with_pending(chord.take(k + 1)), None::<A>),
{
    let candidate = v.pending.push(chord[k]);
    assert(candidate =~= chord.take(k + 1));
    assert forall|i: int| 0 <= i < candidate.len() implies key_press_matches(
        #[trigger] candidate[i],
        chord[i],
    ) by {
        lemma_contains_self(chord[i].modifiers);
    }
    assert(sequence_starts_with(chord, candidate));
    assert(v.bindings[0].0 == chord);
    if k + 1 == chord.len() {
        assert(is_first_exact(v.bindings, candidate, 0));
        let c = choose|i: int| is_first_exact(v.bindings, candidate, i);
        assert(c == 0);
    } else {
        assert(!is_first_exact(v.bindings, candidate, 0));
        assert(!exists|i: int| is_first_exact(v.bindings, candidate, i));
        assert(v.bindings[0].0.len() > candidate.len());
    }
}

/// Resolves key presses (single keys or multi-key chords) to an
/// app-defined action `A`.
pub struct InputBinder<A: Copy> {
    bindings: Vec<(Vec<KeyPress>, A)>,
    pending: Vec<KeyPress>,
    pending_elapsed: u128,
    chord_timeout: u128,
}

impl<A: Copy> InputBinder<A> {
    /// The time a chord has waited never exceeds the timeout.
    #[verifier::type_invariant]
    spec fn waited_within_timeout(self) -> bool {
        self.pending_elapsed <= self.chord_timeout
    }
}

impl<A: Copy> View for InputBinder<A> {
    type V = InputBinderView<A>;

    closed spec fn view(&self) -> InputBinderView<A> {
        InputBinderView {
            bindings: self.bindings@.map_values(|b: (Vec<KeyPress>, A)| (b.0@, b.1)),
            pending: self.pending@,
            pending_elapsed: self.pending_elapsed as nat,
            chord_timeout: self.chord_timeout as nat,
        }
    }
}

fn copy_keys(v: &Vec<KeyPress>) -> (r: Vec<KeyPress>)
    ensures
        r@ == v@,
{
    let mut r: Vec<KeyPress> = Vec::new();
    let mut i: usize = 0;
    while i < v.len()
        invariant
            0 <= i <= v.len(),
            r@ == v@.subrange(0, i as int),
        decreases v.len() - i,
    {
        r.push(v[i]);
        i = i + 1;
    }
    assert(r@ =~= v@);
    r
}

fn key_press_matches_exec(actual: KeyPress, required: KeyPress) -> (r: bool)
    ensures
        r == key_press_matches(actual, required),
{
    actual.code == required.code && actual.modifiers.contains(required.modifiers)
}

fn sequence_starts_with_exec(binding: &Vec<KeyPress>, seq: &Vec<KeyPress>) -> (r: bool)
    ensures
        r == sequence_starts_with(binding@, seq@),
{
    if seq.len() > binding.len() {
        return false;
    }
    let mut i: usize = 0;
    while i < seq.len()
        invariant
            seq@.len() <= binding@.len(),
            0 <= i <= seq@.len(),
            forall|k: int| 0 <= k < i ==> key_press_matches(#[trigger] seq@[k], binding@[k]),
        decreases seq.len() - i,
    {
        if !key_press_matches_exec(seq[i], binding[i]) {
            return false;
        }
        i = i + 1;
    }
    true
}

impl<A: Copy> InputBinder<A> {
    /// A binder with no bindings; `chord_timeout` bounds how long a
    /// partial chord waits for its next key before resetting.
    pub fn new(chord_timeout: std::time::Duration) -> (r: Self)
        ensures
            r@.bindings.len() == 0,
            r@.pending.len() == 0,
            r@.pending_elapsed == 0,
            r@.chord_timeout == duration_as_nanos(chord_timeout),
    {
        Self::with_timeout_nanos(duration_nanos(chord_timeout))
    }

    /// A binder with no bindings and a chord timeout of
    /// `chord_timeout` nanoseconds.
    pub fn with_timeout_nanos(chord_timeout: u128) -> (r: Self)
        ensures
            r@.bindings.len() == 0,
            r@.pending.len() == 0,
            r@.pending_elapsed == 0,
            r@.chord_timeout == chord_timeout,
    {
        let r = InputBinder {
            bindings: Vec::new(),
            pending: Vec::new(),
            pending_elapsed: 0,
            chord_timeout,
        };
        assert(r@.bindings =~= Seq::empty());
        r
    }

    /// Registers a binding: `sequence` (one key, or a chord) resolves to
    /// `action`. Earlier bindings take precedence.
    pub fn bind(&mut self, sequence: Vec<KeyPress>, action: A)
        ensures
            final(self)@ == (InputBinderView {
                bindings: old(self)@.bindings.push((sequence@, action)),
                ..old(self)@
            }),
    {
        proof {
            use_type_invariant(&*self);
        }
        let mut bindings: Vec<(Vec<KeyPress>, A)> = Vec::new();
        std::mem::swap(&mut bindings, &mut self.bindings);
        bindings.push((sequence, action));
        self.bindings = bindings;
        assert(self@.bindings =~= old(self)@.bindings.push((sequence@, action)));
    }

    /// The chord in progress.
    pub fn pending(&self) -> (r: &Vec<KeyPress>)
        ensures
            r@ == self@.pending,
    {
        &self.pending
    }

    fn exact_match(&self, seq: &Vec<KeyPress>) -> (r: Option<A>)
        ensures
            r == exact_match(self@.bindings, seq@),
    {
        let ghost bs = self@.bindings;
        let mut i: usize = 0;
        while i < self.bindings.len()
            invariant
                bs == self@.bindings,
                bs.len() == self.bindings@.len(),
                0 <= i <= bs.len(),
                forall|j: int| 0 <= j < i ==> !binding_matches(#[trigger] bs[j].0, seq@),
            decreases self.bindings.len() - i,
        {
            let b = &self.bindings[i];
            assert(bs[i as int] == (b.0@, b.1));
            if b.0.len() == seq.len() && sequence_starts_with_exec(&b.0, seq) {
                assert(is_first_exact(bs, seq@, i as int));
                proof {
                    let c = choose|k: int| is_first_exact(bs, seq@, k);
                    if c < i {
                        assert(!binding_matches(bs[c].0, seq@));
                    }
                    if c > i {
                        assert(!binding_matches(bs[i as int].0, seq@));
                    }
                }
                return Some(b.1);
            }
            i = i + 1;
        }
        assert(!exists|k: int| is_first_exact(bs, seq@, k));
        None
    }

    fn has_prefix_match(&self, seq: &Vec<KeyPress>) -> (r: bool)
        ensures
            r == has_prefix_match(self@.bindings, seq@),
    {
        let ghost bs = self@.bindings;
        let mut i: usize = 0;
        while i < self.bindings.len()
            invariant
                bs == self@.bindings,
                bs.len() == self.bindings@.len(),
                0 <= i <= bs.len(),
                forall|j: int|
                    0 <= j < i ==> !(#[trigger] bs[j].0.len() > seq@.len() && sequence_starts_with(
                        bs[j].0,
                        seq@,
                    )),
            decreases self.bindings.len() - i,
        {
            let b = &self.bindings[i];
            assert(bs[i as int] == (b.0@, b.1));
            if b.0.len() > seq.len() && sequence_starts_with_exec(&b.0, seq) {
                assert(bs[i as int].0.len() > seq@.len() && sequence_starts_with(bs[i as int].0, seq@));
                return true;
            }
            i = i + 1;
        }
        false
    }

    fn reset_pending(&mut self, pending: Vec<KeyPress>)
        ensures
            final(self)@ == old(self)@.with_pending(pending@),
    {
        proof {
            use_type_invariant(&*self);
        }
        self.pending = pending;
        self.pending_elapsed = 0;
    }

    /// Feeds one input event. Returns the resolved action once a full
    /// binding matches; `None` while a chord is still in progress or the
    /// event doesn't extend toward any binding. Ignores anything that
    /// isn't a key press.
    pub fn feed(&mut self, event: &Event) -> (r: Option<A>)
        ensures
            (final(self)@, r) == old(self)@.feed(*event),
    {
        let key = match event {
            Event::Key(k) => k,
            _ => {
                return None;
            },
        };
        if key.kind != KeyEventKind::Press {
            return None;
        }
        let kp = KeyPress { code: key.code, modifiers: key.modifiers };

        let mut candidate = copy_keys(&self.pending);
        candidate.push(kp);
        let m = self.exact_match(&candidate);
        if m.is_some() {
            self.reset_pending(Vec::new());
            return m;
        }
        if self.has_prefix_match(&candidate) {
            self.reset_pending(candidate);
            return None;
        }
        let mut fresh: Vec<KeyPress> = Vec::new();
        fresh.push(kp);
        assert(fresh@ =~= seq![kp]);
        let m = self.exact_match(&fresh);
        if m.is_some() {
            self.reset_pending(Vec::new());
            return m;
        }
        if self.has_prefix_match(&fresh) {
            self.reset_pending(fresh);
        } else {
            self.reset_pending(Vec::new());
        }
        None
    }

    /// Clears a pending chord once the chord timeout has elapsed since
    /// its last extending key press. A no-op when nothing is pending.
    pub fn expire(&mut self, elapsed: std::time::Duration)
        ensures
            final(self)@ == old(self)@.expire(duration_as_nanos(elapsed) as nat),
    {
        self.expire_nanos(duration_nanos(elapsed));
    }

    /// `expire` for `elapsed` nanoseconds.
    pub fn expire_nanos(&mut self, elapsed: u128)
        ensures
            final(self)@ == old(self)@.expire(elapsed as nat),
    {
        proof {
            use_type_invariant(&*self);
        }
        if self.pending.len() == 0 {
            return;
        }
        if elapsed >= self.chord_timeout - self.pending_elapsed {
            self.reset_pending(Vec::new());
        } else {
            self.pending_elapsed = self.pending_elapsed + elapsed;
        }
    }
}

} // verus!
