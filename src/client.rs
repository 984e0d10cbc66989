//! The terminal client's state and how key presses change it. Copying to the clipboard is
//! left to the caller: a key that asks for it hands back the text to copy.

use vstd::prelude::*;
use crate::nearby::{copy_opt, NearbyDevice};
use crate::progress::ProgressEvent;
use crate::text::{chars_of, pop_char, pop_last, push_char};
use crate::tui::{after_event, SendTabState, Tab, Transfer, TransfersTabState};

verus! {

/// A key, as far as the client tells keys apart.
#[derive(Clone, Copy, Debug, PartialEq, Eq, Structural)]
pub enum KeyCode {
    Char(char),
    Backspace,
    Enter,
    Esc,
    Up,
    Down,
    Other,
}

/// A key press: the key, and whether Control was the only modifier held.
#[derive(Clone, Copy, Debug, PartialEq, Eq, Structural)]
pub struct KeyPress {
    pub code: KeyCode,
    pub control_only: bool,
}

/// The tab that a key switches to: `1` to `4`.
pub open spec fn tab_switch(k: KeyPress) -> Option<Tab> {
    match k.code {
        KeyCode::Char('1') => Some(Tab::Send),
        KeyCode::Char('2') => Some(Tab::Receive),
        KeyCode::Char('3') => Some(Tab::Transfers),
        KeyCode::Char('4') => Some(Tab::Nearby),
        _ => None,
    }
}

/// Whether a key quits: `q`, or Control-`c`.
pub open spec fn quits(k: KeyPress) -> bool {
    k.code == KeyCode::Char('q') || (k.code == KeyCode::Char('c') && k.control_only)
}

/// The tab index that a key switches to, if it is `1` to `4`.
pub fn get_tab_switch(key: &KeyPress) -> (r: Option<usize>)
    ensures
        r == (match tab_switch(*key) {
            Some(t) => Some(crate::tui::tab_index(t) as usize),
            None => None::<usize>,
        }),
{
    match key.code {
        KeyCode::Char('1') => Some(0),
        KeyCode::Char('2') => Some(1),
        KeyCode::Char('3') => Some(2),
        KeyCode::Char('4') => Some(3),
        _ => None,
    }
}

/// Whether a key quits the client.
pub fn should_quit(key: &KeyPress) -> (r: bool)
    ensures
        r == quits(*key),
{
    match key.code {
        KeyCode::Char('q') => true,
        KeyCode::Char('c') => key.control_only,
        _ => false,
    }
}

/// The state of the terminal client.
pub struct App {
    pub current_tab: Tab,
    pub transfers: Vec<Transfer>,
    pub nearby_devices: Vec<NearbyDevice>,
    pub nearby_enabled: bool,
    pub send_tab_state: SendTabState,
    pub send_input_path: String,
    pub send_message: String,
    pub send_success_ticket: Option<String>,
    pub send_success_path: Option<String>,
    pub show_qr: bool,
    pub receive_input_ticket: String,
    pub receive_message: String,
    pub transfers_tab_state: TransfersTabState,
    pub selected_transfer_index: Option<usize>,
    pub running: bool,
}

/// Relies on `String::clear`: empties the string.
#[verifier::external_body]
fn clear_string(s: &mut String)
    ensures
        final(s)@.len() == 0,
{
    s.clear();
}

/// Position of the first transfer with identifier `id`, or -1.
pub open spec fn transfer_index(ts: Seq<Transfer>, id: Seq<char>) -> int
    decreases ts.len(),
{
    if ts.len() == 0 {
        -1
    } else if ts[0].id@ == id {
        0
    } else {
        let r = transfer_index(ts.drop_first(), id);
        if r < 0 {
            -1
        } else {
            r + 1
        }
    }
}

proof fn lemma_transfer_index(ts: Seq<Transfer>, id: Seq<char>, i: int)
    requires
        0 <= i <= ts.len(),
        forall|k: int| 0 <= k < i ==> (#[trigger] ts[k]).id@ != id,
    ensures
        i < ts.len() && ts[i].id@ == id ==> transfer_index(ts, id) == i,
        i == ts.len() ==> transfer_index(ts, id) == -1,
    decreases i,
{
    if i > 0 {
        assert forall|k: int| 0 <= k < i - 1 implies (#[trigger] ts.drop_first()[k]).id@ != id by {
            assert(ts.drop_first()[k] == ts[k + 1]);
        }
        lemma_transfer_index(ts.drop_first(), id, i - 1);
    }
}

/// Position of the first transfer with identifier `id`, if any.
fn find_transfer(ts: &Vec<Transfer>, id: &str) -> (r: Option<usize>)
    ensures
        r matches Some(i) ==> i < ts@.len() && transfer_index(ts@, id@) == i,
        r is None ==> transfer_index(ts@, id@) == -1,
{
    let want = String::from_str(id);
    let mut i: usize = 0;
    while i < ts.len()
        invariant
            i <= ts@.len(),
            want@ == id@,
            forall|k: int| 0 <= k < i ==> (#[trigger] ts@[k]).id@ != id@,
        decreases ts@.len() - i,
    {
        if ts[i].id == want {
            proof {
                lemma_transfer_index(ts@, id@, i as int);
            }
            return Some(i);
        }
        i = i + 1;
    }
    proof {
        lemma_transfer_index(ts@, id@, i as int);
    }
    None
}

/// The transfer that the transfers tab points at: the one shown in detail, else the
/// selected row.
pub open spec fn selected_index(a: App) -> int {
    match a.transfers_tab_state {
        TransfersTabState::Detail { transfer_id } => transfer_index(a.transfers@, transfer_id@),
        TransfersTabState::List => match a.selected_transfer_index {
            Some(i) => if i < a.transfers@.len() {
                i as int
            } else {
                -1
            },
            None => -1,
        },
    }
}

/// Whether `w` occurs in `s`.
pub open spec fn has_sub(s: Seq<char>, w: Seq<char>) -> bool {
    exists|i: int| 0 <= i && i + w.len() <= s.len() && #[trigger] s.subrange(i, i + w.len()) == w
}

fn contains_text(s: &str, w: &str) -> (r: bool)
    ensures
        r == has_sub(s@, w@),
{
    let cs = chars_of(s);
    let ws = chars_of(w);
    if ws.len() > cs.len() {
        assert forall|i: int| 0 <= i && i + ws@.len() <= cs@.len() implies #[trigger] cs@.subrange(i, i + ws@.len()) != ws@ by {}
        return false;
    }
    let n = cs.len();
    let last = n - ws.len();
    let mut i: usize = 0;
    while i <= last
        invariant
            n == cs@.len(),
            last == cs@.len() - ws@.len(),
            cs@ == s@,
            ws@ == w@,
            ws@.len() <= cs@.len(),
            i <= cs@.len() - ws@.len() + 1,
            forall|k: int| 0 <= k < i ==> #[trigger] cs@.subrange(k, k + ws@.len()) != ws@,
        decreases cs@.len() - i,
    {
        let mut j: usize = 0;
        let mut same = true;
        while j < ws.len() && same
            invariant
                n == cs@.len(),
                i <= last,
                last == cs@.len() - ws@.len(),
                i + ws@.len() <= cs@.len(),
                j <= ws@.len(),
                forall|k: int| 0 <= k < j ==> cs@[i + k] == ws@[k],
                !same ==> j < ws@.len() && cs@[i + j] != ws@[j as int],
            decreases ws@.len() - j + (if same { 1int } else { 0int }),
        {
            if cs[i + j] == ws[j] {
                j = j + 1;
            } else {
                same = false;
            }
        }
        if j == ws.len() {
            assert(cs@.subrange(i as int, i + ws@.len()) =~= ws@);
            return true;
        }
        assert(cs@.subrange(i as int, i + ws@.len())[j as int] != ws@[j as int]);
        if i == last {
            return false;
        }
        i = i + 1;
    }
    false
}

impl App {
    /// The client as it starts: on the send tab, with nothing entered or transferred.
    pub fn new() -> (r: App)
        ensures
            r.current_tab == Tab::Send,
            r.transfers@.len() == 0,
            r.nearby_devices@.len() == 0,
            !r.nearby_enabled,
            r.send_tab_state == SendTabState::Input,
            r.send_input_path@.len() == 0,
            r.send_message@.len() == 0,
            r.send_success_ticket is None,
            r.send_success_path is None,
            !r.show_qr,
            r.receive_input_ticket@.len() == 0,
            r.receive_message@.len() == 0,
            r.transfers_tab_state is List,
            r.selected_transfer_index is None,
            r.running,
    {
        App {
            current_tab: Tab::Send,
            transfers: Vec::new(),
            nearby_devices: Vec::new(),
            nearby_enabled: false,
            send_tab_state: SendTabState::Input,
            send_input_path: String::new(),
            send_message: String::new(),
            send_success_ticket: None,
            send_success_path: None,
            show_qr: false,
            receive_input_ticket: String::new(),
            receive_message: String::new(),
            transfers_tab_state: TransfersTabState::List,
            selected_transfer_index: None,
            running: true,
        }
    }

    /// Handles a key press; returns the text to copy to the clipboard, if the key asks
    /// for a copy.
    pub fn handle_key(&mut self, key: KeyPress) -> (r: Option<String>)
        ensures
            key_effect(*old(self), *final(self), key, r),
    {
        match get_tab_switch(&key) {
            Some(index) => {
                match Tab::from_index(index) {
                    Some(tab) => {
                        self.current_tab = tab;
                        return None;
                    },
                    None => {},
                }
            },
            None => {},
        }
        if should_quit(&key) {
            self.running = false;
            return None;
        }
        if key.code == KeyCode::Esc {
            match self.current_tab {
                Tab::Send => {
                    if self.send_tab_state == SendTabState::Success {
                        self.send_tab_state = SendTabState::Input;
                        clear_string(&mut self.send_input_path);
                        self.send_success_ticket = None;
                        self.send_success_path = None;
                    }
                },
                Tab::Transfers => {
                    let detail = match &self.transfers_tab_state {
                        TransfersTabState::Detail { .. } => true,
                        TransfersTabState::List => false,
                    };
                    if detail {
                        self.transfers_tab_state = TransfersTabState::List;
                    }
                },
                _ => {},
            }
            return None;
        }
        match self.current_tab {
            Tab::Send => self.handle_send_tab_key(key),
            Tab::Receive => {
                self.handle_receive_tab_key(key);
                None
            },
            Tab::Transfers => self.handle_transfers_tab_key(key),
            Tab::Nearby => {
                self.handle_nearby_tab_key(key);
                None
            },
        }
    }

    /// Handles a key on the send tab.
    pub fn handle_send_tab_key(&mut self, key: KeyPress) -> (r: Option<String>)
        ensures
            send_key(*old(self), *final(self), key, r),
    {
        match self.send_tab_state {
            SendTabState::Input => {
                match key.code {
                    KeyCode::Char(c) => {
                        push_char(&mut self.send_input_path, c);
                    },
                    KeyCode::Backspace => {
                        pop_char(&mut self.send_input_path);
                    },
                    KeyCode::Enter => {
                        if self.send_input_path.as_str().unicode_len() > 0 {
                            let mut m = String::from_str("Sending: ");
                            m.append(self.send_input_path.as_str());
                            self.send_message = m;
                        }
                    },
                    _ => {},
                }
                None
            },
            SendTabState::Success => {
                if key.code == KeyCode::Char('c') || key.code == KeyCode::Char('C') {
                    copy_opt(&self.send_success_ticket)
                } else {
                    None
                }
            },
        }
    }

    /// Handles a key on the receive tab.
    pub fn handle_receive_tab_key(&mut self, key: KeyPress)
        ensures
            receive_key(*old(self), *final(self), key),
    {
        match key.code {
            KeyCode::Char(c) => {
                push_char(&mut self.receive_input_ticket, c);
            },
            KeyCode::Backspace => {
                pop_char(&mut self.receive_input_ticket);
            },
            KeyCode::Enter => {
                if self.receive_input_ticket.as_str().unicode_len() > 0 {
                    self.receive_message = String::from_str("Receiving from ticket...");
                }
            },
            _ => {},
        }
    }

    /// Handles a key on the nearby tab.
    pub fn handle_nearby_tab_key(&mut self, key: KeyPress)
        ensures
            nearby_key(*old(self), *final(self), key),
    {
        if key.code == KeyCode::Char('s') {
            self.nearby_enabled = !self.nearby_enabled;
        }
    }

    /// Handles a key on the transfers tab.
    pub fn handle_transfers_tab_key(&mut self, key: KeyPress) -> (r: Option<String>)
        ensures
            transfers_key(*old(self), *final(self), key, r),
    {
        let detail = match &self.transfers_tab_state {
            TransfersTabState::Detail { .. } => true,
            TransfersTabState::List => false,
        };
        if detail {
            if key.code == KeyCode::Char('c') || key.code == KeyCode::Char('C') {
                return match self.get_selected_transfer_ticket() {
                    Some(t) => Some(String::from_str(t)),
                    None => None,
                };
            }
            return None;
        }
        let len = self.transfers.len();
        match key.code {
            KeyCode::Up => {
                self.selected_transfer_index = if len == 0 {
                    None
                } else {
                    match self.selected_transfer_index {
                        None => Some(len - 1),
                        Some(i) => if i == 0 {
                            Some(len - 1)
                        } else {
                            Some(i - 1)
                        },
                    }
                };
            },
            KeyCode::Down => {
                self.selected_transfer_index = if len == 0 {
                    None
                } else {
                    match self.selected_transfer_index {
                        None => Some(0),
                        Some(i) => if i >= len - 1 {
                            Some(0)
                        } else {
                            Some(i + 1)
                        },
                    }
                };
            },
            KeyCode::Enter => {
                match self.selected_transfer_index {
                    Some(i) => {
                        if i < len && self.transfers[i].ticket.is_some() {
                            let id = self.transfers[i].id.clone();
                            self.transfers_tab_state = TransfersTabState::Detail { transfer_id: id };
                        }
                    },
                    None => {},
                }
            },
            KeyCode::Char('d') => {
                match self.selected_transfer_index {
                    Some(i) => {
                        if i < len {
                            self.transfers.remove(i);
                            let n = self.transfers.len();
                            if n == 0 {
                                self.selected_transfer_index = None;
                            } else if i >= n {
                                self.selected_transfer_index = Some(n - 1);
                            }
                        }
                    },
                    None => {},
                }
            },
            _ => {},
        }
        None
    }

    /// Adds a transfer at the end of the list.
    pub fn add_transfer(&mut self, transfer: Transfer)
        ensures
            *final(self) == (App { transfers: final(self).transfers, ..*old(self) }),
            final(self).transfers@ == old(self).transfers@.push(transfer),
    {
        self.transfers.push(transfer);
    }

    /// Replaces the list of nearby devices.
    pub fn update_nearby_devices(&mut self, devices: Vec<NearbyDevice>)
        ensures
            *final(self) == (App { nearby_devices: devices, ..*old(self) }),
    {
        self.nearby_devices = devices;
    }

    /// Shows the send tab's success view for `ticket`, shared from `path`.
    pub fn set_send_success(&mut self, ticket: String, path: String)
        ensures
            final(self).send_tab_state == SendTabState::Success,
            final(self).send_success_ticket == Some(ticket),
            final(self).send_success_path == Some(path),
            final(self).send_input_path@.len() == 0,
            *final(self) == (App {
                send_tab_state: SendTabState::Success,
                send_success_ticket: Some(ticket),
                send_success_path: Some(path),
                send_input_path: final(self).send_input_path,
                ..*old(self)
            }),
    {
        self.send_tab_state = SendTabState::Success;
        self.send_success_ticket = Some(ticket);
        self.send_success_path = Some(path);
        clear_string(&mut self.send_input_path);
    }

    /// Applies a progress event to the transfer with identifier `transfer_id`, if any.
    pub fn update_progress(&mut self, event: &ProgressEvent, transfer_id: &str)
        requires
            forall|k: int| 0 <= k < old(self).transfers@.len() ==> (#[trigger] old(self).transfers@[k]).transferred_files < u64::MAX,
        ensures
            *final(self) == (App { transfers: final(self).transfers, ..*old(self) }),
            ({
                let i = transfer_index(old(self).transfers@, transfer_id@);
                &&& i < 0 ==> final(self).transfers@ == old(self).transfers@
                &&& i >= 0 ==> final(self).transfers@ == old(self).transfers@.update(i, after_event(old(self).transfers@[i], *event))
            }),
    {
        match find_transfer(&self.transfers, transfer_id) {
            Some(i) => {
                let mut t = self.transfers.remove(i);
                t.update_progress(event);
                self.transfers.insert(i, t);
                assert(self.transfers@ =~= old(self).transfers@.update(i as int, after_event(old(self).transfers@[i as int], *event)));
            },
            None => {},
        }
    }

    /// Drops every finished transfer, keeping the others in order.
    pub fn cleanup_finished_transfers(&mut self)
        ensures
            *final(self) == (App { transfers: final(self).transfers, ..*old(self) }),
            final(self).transfers@ == old(self).transfers@.filter(|t: Transfer| !finished_status(t)),
    {
        let mut rest: Vec<Transfer> = Vec::new();
        std::mem::swap(&mut rest, &mut self.transfers);
        let ghost all = rest@;
        let n = rest.len();
        let mut kept: Vec<Transfer> = Vec::new();
        let mut i: usize = 0;
        while rest.len() > 0
            invariant
                n == all.len(),
                i + rest@.len() == all.len(),
                rest@ == all.skip(i as int),
                kept@ == all.take(i as int).filter(|t: Transfer| !finished_status(t)),
            decreases rest@.len(),
        {
            let t = rest.remove(0);
            assert(t == all[i as int]);
            assert(rest@ =~= all.skip(i as int + 1));
            assert(all.take(i as int + 1).drop_last() =~= all.take(i as int));
            reveal(Seq::filter);
            if !t.status.is_finished() {
                kept.push(t);
            }
            i = i + 1;
        }
        assert(all.take(all.len() as int) =~= all);
        self.transfers = kept;
    }

    /// The transfer that the transfers tab points at, if any.
    pub fn get_selected_transfer(&self) -> (r: Option<&Transfer>)
        ensures
            selected_index(*self) < 0 ==> r is None,
            selected_index(*self) >= 0 ==> r == Some(&self.transfers@[selected_index(*self)]),
    {
        match &self.transfers_tab_state {
            TransfersTabState::Detail { transfer_id } => match find_transfer(&self.transfers, transfer_id.as_str()) {
                Some(i) => Some(&self.transfers[i]),
                None => None,
            },
            TransfersTabState::List => match self.selected_transfer_index {
                Some(i) => if i < self.transfers.len() {
                    Some(&self.transfers[i])
                } else {
                    None
                },
                None => None,
            },
        }
    }

    /// The ticket of the transfer that the transfers tab points at, if it has one.
    pub fn get_selected_transfer_ticket(&self) -> (r: Option<&str>)
        ensures
            selected_index(*self) < 0 ==> r is None,
            selected_index(*self) >= 0 ==> (match self.transfers@[selected_index(*self)].ticket {
                Some(t) => r matches Some(s) && s@ == t@,
                None => r is None,
            }),
    {
        match self.get_selected_transfer() {
            Some(t) => match &t.ticket {
                Some(s) => Some(s.as_str()),
                None => None,
            },
            None => None,
        }
    }

    /// The first transfer with identifier `id`, if any.
    pub fn get_transfer_by_id(&self, id: &str) -> (r: Option<&Transfer>)
        ensures
            transfer_index(self.transfers@, id@) < 0 ==> r is None,
            transfer_index(self.transfers@, id@) >= 0 ==> r == Some(&self.transfers@[transfer_index(self.transfers@, id@)]),
    {
        match find_transfer(&self.transfers, id) {
            Some(i) => Some(&self.transfers[i]),
            None => None,
        }
    }

    /// Records how copying to the clipboard went.
    pub fn set_clipboard_result(&mut self, error: Option<String>)
        ensures
            *final(self) == (App { send_message: final(self).send_message, ..*old(self) }),
            error is None ==> final(self).send_message@ == "Ticket copied to clipboard!"@,
            error matches Some(e) ==> final(self).send_message@ == "Copy failed: "@ + e@,
    {
        match error {
            None => {
                self.send_message = String::from_str("Ticket copied to clipboard!");
            },
            Some(e) => {
                let mut m = String::from_str("Copy failed: ");
                m.append(e.as_str());
                self.send_message = m;
            },
        }
    }

    /// The message shown after a copy.
    pub fn clipboard_message(&self) -> (r: &str)
        ensures
            r@ == self.send_message@,
    {
        self.send_message.as_str()
    }

    /// Whether the message reports a copy, made or failed.
    pub fn has_clipboard_message(&self) -> (r: bool)
        ensures
            r == (has_sub(self.send_message@, "copied"@) || has_sub(self.send_message@, "Copy failed"@)),
    {
        contains_text(self.send_message.as_str(), "copied") || contains_text(self.send_message.as_str(), "Copy failed")
    }
}


/// What a key does on the send tab: edit the path, announce the send, or (on the success
/// view) ask to copy the ticket.
pub open spec fn send_key(o: App, n: App, k: KeyPress, r: Option<String>) -> bool {
    match o.send_tab_state {
        SendTabState::Input => r is None && match k.code {
            KeyCode::Char(c) => n == (App { send_input_path: n.send_input_path, ..o }) && n.send_input_path@
                == o.send_input_path@.push(c),
            KeyCode::Backspace => n == (App { send_input_path: n.send_input_path, ..o }) && n.send_input_path@
                == pop_last(o.send_input_path@),
            KeyCode::Enter => if o.send_input_path@.len() > 0 {
                n == (App { send_message: n.send_message, ..o }) && n.send_message@ == "Sending: "@
                    + o.send_input_path@
            } else {
                n == o
            },
            _ => n == o,
        },
        SendTabState::Success => n == o && (if k.code == KeyCode::Char('c') || k.code == KeyCode::Char('C') {
            r == o.send_success_ticket
        } else {
            r is None
        }),
    }
}

/// What a key does on the receive tab: edit the ticket, or announce the receive.
pub open spec fn receive_key(o: App, n: App, k: KeyPress) -> bool {
    match k.code {
        KeyCode::Char(c) => n == (App { receive_input_ticket: n.receive_input_ticket, ..o })
            && n.receive_input_ticket@ == o.receive_input_ticket@.push(c),
        KeyCode::Backspace => n == (App { receive_input_ticket: n.receive_input_ticket, ..o })
            && n.receive_input_ticket@ == pop_last(o.receive_input_ticket@),
        KeyCode::Enter => if o.receive_input_ticket@.len() > 0 {
            n == (App { receive_message: n.receive_message, ..o }) && n.receive_message@
                == "Receiving from ticket..."@
        } else {
            n == o
        },
        _ => n == o,
    }
}

/// What a key does on the nearby tab: `s` switches discovery on or off.
pub open spec fn nearby_key(o: App, n: App, k: KeyPress) -> bool {
    if k.code == KeyCode::Char('s') {
        n == (App { nearby_enabled: !o.nearby_enabled, ..o })
    } else {
        n == o
    }
}

/// The selection after moving up the list of `len` transfers, wrapping to the end.
pub open spec fn select_up(sel: Option<usize>, len: nat) -> Option<usize> {
    if len == 0 {
        None
    } else {
        match sel {
            None => Some((len - 1) as usize),
            Some(i) => if i == 0 {
                Some((len - 1) as usize)
            } else {
                Some((i - 1) as usize)
            },
        }
    }
}

/// The selection after moving down the list of `len` transfers, wrapping to the start.
pub open spec fn select_down(sel: Option<usize>, len: nat) -> Option<usize> {
    if len == 0 {
        None
    } else {
        match sel {
            None => Some(0),
            Some(i) => if i >= len - 1 {
                Some(0)
            } else {
                Some((i + 1) as usize)
            },
        }
    }
}

/// What a key does on the transfers tab: move the selection, open the selected transfer's
/// ticket, delete the selected transfer, or (in the detail view) ask to copy its ticket.
pub open spec fn transfers_key(o: App, n: App, k: KeyPress, r: Option<String>) -> bool {
    let len = o.transfers@.len();
    match o.transfers_tab_state {
        TransfersTabState::List => r is None && match k.code {
            KeyCode::Up => n == (App { selected_transfer_index: select_up(o.selected_transfer_index, len), ..o }),
            KeyCode::Down => n == (App { selected_transfer_index: select_down(o.selected_transfer_index, len), ..o }),
            KeyCode::Enter => match o.selected_transfer_index {
                Some(i) => if i < len && o.transfers@[i as int].ticket is Some {
                    n == (App {
                        transfers_tab_state: TransfersTabState::Detail { transfer_id: o.transfers@[i as int].id },
                        ..o
                    })
                } else {
                    n == o
                },
                None => n == o,
            },
            KeyCode::Char('d') => match o.selected_transfer_index {
                Some(i) => if i < len {
                    let rest = o.transfers@.remove(i as int);
                    &&& n == (App { transfers: n.transfers, selected_transfer_index: n.selected_transfer_index, ..o })
                    &&& n.transfers@ == rest
                    &&& n.selected_transfer_index == (if rest.len() == 0 {
                        None
                    } else if i >= rest.len() {
                        Some((rest.len() - 1) as usize)
                    } else {
                        Some(i)
                    })
                } else {
                    n == o
                },
                None => n == o,
            },
            _ => n == o,
        },
        TransfersTabState::Detail { .. } => n == o && (if k.code == KeyCode::Char('c') || k.code == KeyCode::Char('C') {
            let i = selected_index(o);
            if i >= 0 {
                match o.transfers@[i].ticket {
                    Some(t) => r matches Some(x) && x@ == t@,
                    None => r is None,
                }
            } else {
                r is None
            }
        } else {
            r is None
        }),
    }
}

/// What Esc does: leave the send tab's success view, or the transfers tab's detail view.
pub open spec fn esc_key(o: App, n: App) -> bool {
    if o.current_tab == Tab::Send && o.send_tab_state == SendTabState::Success {
        n == (App {
            send_tab_state: SendTabState::Input,
            send_input_path: n.send_input_path,
            send_success_ticket: None,
            send_success_path: None,
            ..o
        }) && n.send_input_path@.len() == 0
    } else if o.current_tab == Tab::Transfers && o.transfers_tab_state is Detail {
        n == (App { transfers_tab_state: TransfersTabState::List, ..o })
    } else {
        n == o
    }
}

/// What a key does: `1` to `4` switch tabs, `q` or Control-`c` quit, Esc leaves a detail
/// view, and anything else goes to the current tab. The result is text to copy, if any.
pub open spec fn key_effect(o: App, n: App, k: KeyPress, r: Option<String>) -> bool {
    if tab_switch(k) is Some {
        n == (App { current_tab: tab_switch(k)->Some_0, ..o }) && r is None
    } else if quits(k) {
        n == (App { running: false, ..o }) && r is None
    } else if k.code == KeyCode::Esc {
        esc_key(o, n) && r is None
    } else {
        match o.current_tab {
            Tab::Send => send_key(o, n, k, r),
            Tab::Receive => receive_key(o, n, k) && r is None,
            Tab::Transfers => transfers_key(o, n, k, r),
            Tab::Nearby => nearby_key(o, n, k) && r is None,
        }
    }
}

/// Whether a transfer is over.
pub open spec fn finished_status(t: Transfer) -> bool {
    t.status is Completed || t.status is Error || t.status is Cancelled
}

} // verus!
