//! What the screen remembers and what each key does to it.
//!
//! The app never touches the reader or the disk. What it wants done goes into
//! its outbox.

use crate::em4100::{
    em4100_parse, em4100_show, em4100_text, em4100_value, form_after, form_before, same_id, IdForm,
    T5577_EM4100,
};
use crate::hexes::{exact_value, hex, hex_text, unhex, unhex_value};
use crate::input::{input_of, typed, Input, InputModel, Key};
use crate::mifare::{kind_of, sector_len, sector_span, MAX_SECTORS};
use crate::text::{dec, dec_text, hex2, one_line, push_hex2, push_text, texts};
use crate::worker::{blocks_view, Job, JobModel, Pad, PadModel, Sector, SectorModel};
use vstd::prelude::*;

verus! {

/// The last block of a T5577 page.
pub const LAST_BLOCK: u8 = 7;

/// Lines the log holds before its older half goes.
pub const LOG_MAX: usize = 300;

// ---- screens ----

#[derive(Clone, Copy, Debug, PartialEq, Eq, Structural)]
pub enum Screen {
    Tag,
    Card,
    Blocks,
    Console,
}

pub open spec fn screen_after(s: Screen) -> Screen {
    match s {
        Screen::Tag => Screen::Card,
        Screen::Card => Screen::Blocks,
        Screen::Blocks => Screen::Console,
        Screen::Console => Screen::Tag,
    }
}

pub open spec fn screen_before(s: Screen) -> Screen {
    match s {
        Screen::Tag => Screen::Console,
        Screen::Card => Screen::Tag,
        Screen::Blocks => Screen::Card,
        Screen::Console => Screen::Blocks,
    }
}

pub open spec fn tab_of(s: Screen) -> Seq<char> {
    match s {
        Screen::Tag => "1 Tag"@,
        Screen::Card => "2 Card"@,
        Screen::Blocks => "3 Blocks"@,
        Screen::Console => "4 Console"@,
    }
}

/// The keys a screen has of its own, each with what it does.
pub open spec fn keys_of(s: Screen) -> Seq<(Seq<char>, Seq<char>)> {
    match s {
        Screen::Tag => seq![
            ("up/down"@, "form"@),
            ("e"@, "edit"@),
            ("c"@, "capture"@),
            ("r"@, "read"@),
            ("0"@, "block 0"@),
            ("w"@, "write"@),
            ("x"@, "wipe"@),
        ],
        Screen::Card => seq![("d"@, "dump"@), ("s"@, "save"@)],
        Screen::Blocks => seq![("up/down"@, "block"@), ("e"@, "edit"@), ("w"@, "write"@)],
        Screen::Console => seq![("up/down"@, "command"@), ("e"@, "edit"@), ("Enter"@, "send"@)],
    }
}

pub open spec fn hints_view(v: Seq<(&'static str, &'static str)>) -> Seq<(Seq<char>, Seq<char>)> {
    v.map_values(|h: (&'static str, &'static str)| (h.0@, h.1@))
}

fn push_hint(v: &mut Vec<(&'static str, &'static str)>, key: &'static str, what: &'static str)
    ensures
        hints_view(final(v)@) == hints_view(old(v)@).push((key@, what@)),
{
    v.push((key, what));
    assert(hints_view(v@) =~= hints_view(old(v)@).push((key@, what@)));
}

impl Screen {
    pub const ALL: [Screen; 4] = [Screen::Tag, Screen::Card, Screen::Blocks, Screen::Console];

    pub fn tab(self) -> (r: &'static str)
        ensures
            r@ == tab_of(self),
    {
        match self {
            Screen::Tag => "1 Tag",
            Screen::Card => "2 Card",
            Screen::Blocks => "3 Blocks",
            Screen::Console => "4 Console",
        }
    }

    pub fn keys(self) -> (r: Vec<(&'static str, &'static str)>)
        ensures
            hints_view(r@) == keys_of(self),
    {
        let mut v: Vec<(&'static str, &'static str)> = Vec::new();
        assert(hints_view(v@) =~= Seq::empty());
        match self {
            Screen::Tag => {
                push_hint(&mut v, "up/down", "form");
                push_hint(&mut v, "e", "edit");
                push_hint(&mut v, "c", "capture");
                push_hint(&mut v, "r", "read");
                push_hint(&mut v, "0", "block 0");
                push_hint(&mut v, "w", "write");
                push_hint(&mut v, "x", "wipe");
            },
            Screen::Card => {
                push_hint(&mut v, "d", "dump");
                push_hint(&mut v, "s", "save");
            },
            Screen::Blocks => {
                push_hint(&mut v, "up/down", "block");
                push_hint(&mut v, "e", "edit");
                push_hint(&mut v, "w", "write");
            },
            Screen::Console => {
                push_hint(&mut v, "up/down", "command");
                push_hint(&mut v, "e", "edit");
                push_hint(&mut v, "Enter", "send");
            },
        }
        v
    }

    pub fn step(self, back: bool) -> (r: Screen)
        ensures
            r == if back {
                screen_before(self)
            } else {
                screen_after(self)
            },
    {
        if back {
            match self {
                Screen::Tag => Screen::Console,
                Screen::Card => Screen::Tag,
                Screen::Blocks => Screen::Card,
                Screen::Console => Screen::Blocks,
            }
        } else {
            match self {
                Screen::Tag => Screen::Card,
                Screen::Card => Screen::Blocks,
                Screen::Blocks => Screen::Console,
                Screen::Console => Screen::Tag,
            }
        }
    }
}

/// Going on and back again ends where it began, and four steps go round.
pub proof fn screens_go_round(s: Screen)
    ensures
        screen_before(screen_after(s)) == s,
        screen_after(screen_before(s)) == s,
        screen_after(screen_after(screen_after(screen_after(s)))) == s,
{
}

/// Where the ID in the buffer came from. Only `Blank` is safe to overwrite
/// from the pad.
#[derive(Clone, Copy, Debug, PartialEq, Eq, Structural)]
pub enum Origin {
    Blank,
    Captured,
    Typed,
}

pub open spec fn origin_label(o: Origin) -> Seq<char> {
    match o {
        Origin::Blank => "empty"@,
        Origin::Captured => "captured"@,
        Origin::Typed => "typed"@,
    }
}

impl Origin {
    pub fn label(self) -> (r: &'static str)
        ensures
            r@ == origin_label(self),
    {
        match self {
            Origin::Blank => "empty",
            Origin::Captured => "captured",
            Origin::Typed => "typed",
        }
    }
}

// ---- known commands ----

/// How many commands the console knows.
pub const EXAMPLES: usize = 5;

/// A known command: what it does, and its payload.
pub open spec fn example_of(i: int) -> (Seq<char>, Seq<char>) {
    if i == 0 {
        ("firmware version"@, "ff 00 00 00 02 d4 02"@)
    } else if i == 1 {
        ("13.56 MHz detect"@, "ff 00 6a 01 00 08"@)
    } else if i == 2 {
        ("buzzer and LED"@, "ff 00 40 50 04 01 05 01 01"@)
    } else if i == 3 {
        ("reader config"@, "ff 00 82 00 00"@)
    } else {
        ("125 kHz ID read"@, "ff 00 65 08 18 48 e8 01 00 00 00 00 00"@)
    }
}

pub fn example(i: usize) -> (r: (&'static str, &'static str))
    ensures
        (r.0@, r.1@) == example_of(i as int),
{
    if i == 0 {
        ("firmware version", "ff 00 00 00 02 d4 02")
    } else if i == 1 {
        ("13.56 MHz detect", "ff 00 6a 01 00 08")
    } else if i == 2 {
        ("buzzer and LED", "ff 00 40 50 04 01 05 01 01")
    } else if i == 3 {
        ("reader config", "ff 00 82 00 00")
    } else {
        ("125 kHz ID read", "ff 00 65 08 18 48 e8 01 00 00 00 00 00")
    }
}

// ---- the state ----

/// A write that waits for a yes.
pub struct Confirm {
    pub prompt: Vec<String>,
    pub job: Job,
}

#[verifier::ext_equal]
pub struct ConfirmModel {
    pub prompt: Seq<Seq<char>>,
    pub job: JobModel,
}

impl View for Confirm {
    type V = ConfirmModel;

    open spec fn view(&self) -> ConfirmModel {
        ConfirmModel { prompt: texts(self.prompt@), job: self.job@ }
    }
}

/// Something the app wants done for it.
pub enum Request {
    Job(Job),
    /// Write some bytes to a file.
    Save { path: String, bytes: Vec<u8> },
}

#[verifier::ext_equal]
pub enum RequestModel {
    Job(JobModel),
    Save { path: Seq<char>, bytes: Seq<u8> },
}

impl View for Request {
    type V = RequestModel;

    open spec fn view(&self) -> RequestModel {
        match self {
            Request::Job(j) => RequestModel::Job(j@),
            Request::Save { path, bytes } => RequestModel::Save { path: path@, bytes: bytes@ },
        }
    }
}

pub struct App {
    pub screen: Screen,
    pub pad: Pad,
    /// Drives the heartbeat; frozen means a reader that stopped answering.
    pub polls: u64,
    pub log: Vec<(String, bool)>,
    pub busy: Option<&'static str>,
    pub confirm: Option<Confirm>,
    pub help: bool,
    pub outbox: Vec<Request>,
    /// The ID a write would use, independent of the pad.
    pub id: [u8; 5],
    pub origin: Origin,
    pub form: IdForm,
    pub field: Input,
    pub field_err: Option<String>,
    pub write_config: bool,
    pub block_sel: u8,
    pub block_field: Input,
    pub dump: Vec<Sector>,
    pub console: Input,
    /// The known command that the console was last loaded from.
    pub example: usize,
    pub editing: bool,
    /// State as editing began, for Esc to restore.
    pub snap: Option<(String, [u8; 5], Origin)>,
}

#[verifier::ext_equal]
pub struct AppModel {
    pub screen: Screen,
    pub pad: PadModel,
    pub polls: u64,
    pub log: Seq<(Seq<char>, bool)>,
    pub busy: Option<Seq<char>>,
    pub confirm: Option<ConfirmModel>,
    pub help: bool,
    pub outbox: Seq<RequestModel>,
    pub id: Seq<u8>,
    pub origin: Origin,
    pub form: IdForm,
    pub field: InputModel,
    pub field_err: Option<Seq<char>>,
    pub write_config: bool,
    pub block_sel: u8,
    pub block_field: InputModel,
    pub dump: Seq<SectorModel>,
    pub console: InputModel,
    pub example: int,
    pub editing: bool,
    pub snap: Option<(Seq<char>, Seq<u8>, Origin)>,
}

pub open spec fn log_view(v: Seq<(String, bool)>) -> Seq<(Seq<char>, bool)> {
    v.map_values(|e: (String, bool)| (e.0@, e.1))
}

pub open spec fn busy_view(b: Option<&'static str>) -> Option<Seq<char>> {
    match b {
        Some(w) => Some(w@),
        None => None,
    }
}

pub open spec fn confirm_view(c: Option<Confirm>) -> Option<ConfirmModel> {
    match c {
        Some(c) => Some(c@),
        None => None,
    }
}

pub open spec fn outbox_view(v: Seq<Request>) -> Seq<RequestModel> {
    v.map_values(|r: Request| r@)
}

pub open spec fn err_view(e: Option<String>) -> Option<Seq<char>> {
    match e {
        Some(e) => Some(e@),
        None => None,
    }
}

pub open spec fn dump_view(v: Seq<Sector>) -> Seq<SectorModel> {
    v.map_values(|s: Sector| s@)
}

pub open spec fn snap_view(s: Option<(String, [u8; 5], Origin)>) -> Option<
    (Seq<char>, Seq<u8>, Origin),
> {
    match s {
        Some((t, id, o)) => Some((t@, id@, o)),
        None => None,
    }
}

impl View for App {
    type V = AppModel;

    open spec fn view(&self) -> AppModel {
        AppModel {
            screen: self.screen,
            pad: self.pad@,
            polls: self.polls,
            log: log_view(self.log@),
            busy: busy_view(self.busy),
            confirm: confirm_view(self.confirm),
            help: self.help,
            outbox: outbox_view(self.outbox@),
            id: self.id@,
            origin: self.origin,
            form: self.form,
            field: self.field@,
            field_err: err_view(self.field_err),
            write_config: self.write_config,
            block_sel: self.block_sel,
            block_field: self.block_field@,
            dump: dump_view(self.dump@),
            console: self.console@,
            example: self.example as int,
            editing: self.editing,
            snap: snap_view(self.snap),
        }
    }
}

impl AppModel {
    pub open spec fn wf(self) -> bool {
        &&& self.id.len() == 5
        &&& self.field.wf()
        &&& self.block_field.wf()
        &&& self.console.wf()
        &&& self.block_sel <= LAST_BLOCK
        &&& 0 <= self.example < EXAMPLES
        &&& self.log.len() <= LOG_MAX
        &&& forall|i: int| 0 <= i < self.dump.len() ==> (#[trigger] self.dump[i]).number < MAX_SECTORS
    }

    /// Editing is under way exactly when there is something to go back to, and
    /// never on the card screen, which has no field.
    pub open spec fn edit_wf(self) -> bool {
        &&& self.editing <==> self.snap is Some
        &&& self.editing ==> !(self.screen is Card)
    }
}

/// The app as it starts.
pub open spec fn fresh_app() -> AppModel {
    AppModel {
        screen: Screen::Tag,
        pad: PadModel::Empty,
        polls: 0,
        log: seq![("? for keys"@, false)],
        busy: None,
        confirm: None,
        help: false,
        outbox: Seq::empty(),
        id: seq![0u8, 0, 0, 0, 0],
        origin: Origin::Blank,
        form: IdForm::Hex,
        field: input_of(em4100_text(seq![0u8, 0, 0, 0, 0], IdForm::Hex)),
        field_err: None,
        write_config: true,
        block_sel: 0,
        block_field: input_of("00 00 00 00"@),
        dump: Seq::empty(),
        console: input_of(example_of(0).1),
        example: 0,
        editing: false,
        snap: None,
    }
}

/// One more line in the log. A full log loses its oldest 150 lines.
pub open spec fn logged(m: AppModel, text: Seq<char>, bad: bool) -> AppModel {
    let l = m.log.push((text, bad));
    AppModel {
        log: if l.len() > LOG_MAX {
            l.skip(150)
        } else {
            l
        },
        ..m
    }
}

/// The field shows the ID in the form chosen.
pub open spec fn synced(m: AppModel) -> AppModel {
    AppModel { field: input_of(em4100_text(m.id, m.form)), field_err: None, ..m }
}

/// A job in the outbox.
pub open spec fn queued(m: AppModel, job: JobModel) -> AppModel {
    AppModel { outbox: m.outbox.push(RequestModel::Job(job)), ..m }
}

impl App {
    pub fn new() -> (r: App)
        ensures
            r@ == fresh_app(),
            r@.wf(),
            r@.edit_wf(),
    {
        let id: [u8; 5] = [0, 0, 0, 0, 0];
        assert(id@ =~= seq![0u8, 0, 0, 0, 0]);
        let mut a = App {
            screen: Screen::Tag,
            pad: Pad::Empty,
            polls: 0,
            log: Vec::new(),
            busy: None,
            confirm: None,
            help: false,
            outbox: Vec::new(),
            id,
            origin: Origin::Blank,
            form: IdForm::Hex,
            field: Input::new(),
            field_err: None,
            write_config: true,
            block_sel: 0,
            block_field: Input::new(),
            dump: Vec::new(),
            console: Input::new(),
            example: 0,
            editing: false,
            snap: None,
        };
        assert(a@.log =~= Seq::empty());
        assert(a@.outbox =~= Seq::empty());
        assert(a@.dump =~= Seq::empty());
        a.sync_field();
        a.block_field.set("00 00 00 00");
        a.console.set(example(0).1);
        a.log("? for keys".to_owned(), false);
        assert(a@.log =~= seq![("? for keys"@, false)]);
        a
    }

    pub fn log(&mut self, m: String, bad: bool)
        requires
            old(self)@.log.len() <= LOG_MAX,
        ensures
            final(self)@ == logged(old(self)@, m@, bad),
            final(self)@.log.len() <= LOG_MAX,
    {
        self.log.push((m, bad));
        assert(log_view(self.log@) =~= old(self)@.log.push((m@, bad)));
        if self.log.len() > LOG_MAX {
            let ghost full = self.log@;
            let newer = self.log.split_off(150);
            self.log = newer;
            assert(log_view(self.log@) =~= log_view(full).skip(150));
        }
    }

    pub fn sync_field(&mut self)
        ensures
            final(self)@ == synced(old(self)@),
            final(self)@.field.wf(),
    {
        let text = em4100_show(self.id, self.form);
        self.field.set(text.as_str());
        self.field_err = None;
    }

    fn queue(&mut self, job: Job)
        ensures
            final(self)@ == queued(old(self)@, job@),
    {
        self.outbox.push(Request::Job(job));
        assert(outbox_view(self.outbox@) =~= old(self)@.outbox.push(RequestModel::Job(job@)));
    }
}

// ---- the buffer ----

/// Text that will not parse leaves the ID alone, so a half-typed value is never
/// what gets written.
pub open spec fn reparsed(m: AppModel) -> AppModel {
    match em4100_value(m.field.value, m.form, m.id) {
        Ok(id) => AppModel { id, field_err: None, ..m },
        Err(e) => AppModel { field_err: Some(e), ..m },
    }
}

/// The tag on the pad goes into the buffer. Nothing else overwrites a captured
/// or typed one.
pub open spec fn captured(m: AppModel) -> AppModel {
    match m.pad {
        PadModel::Lf { id, freq } => logged(
            synced(AppModel { id, origin: Origin::Captured, ..m }),
            "captured "@ + hex_text(id),
            false,
        ),
        PadModel::Hf(c) => logged(
            m,
            hex_text(c.uid) + " is a card UID. This screen takes IDs."@,
            true,
        ),
        PadModel::Empty => logged(m, "nothing on the pad"@, true),
    }
}

/// The next useful thing to do.
pub open spec fn next_step_of(m: AppModel) -> Seq<char> {
    match m.pad {
        PadModel::Hf(_) => "13.56 MHz card. Screen 2 reads those."@,
        PadModel::Empty => if m.origin is Blank {
            "set the tag you want to copy on the pad"@
        } else {
            "set a blank down. w writes."@
        },
        PadModel::Lf { id, freq } => if m.origin is Blank {
            "c captures this tag"@
        } else if id == m.id {
            "the tag matches the buffer"@
        } else {
            "w overwrites this tag with the buffer"@
        },
    }
}

/// An ID off the pad fills an untouched buffer, once.
pub open spec fn seeded(m: AppModel, id: Seq<u8>) -> AppModel {
    if m.origin is Blank && !m.editing {
        synced(AppModel { id, origin: Origin::Captured, ..m })
    } else {
        m
    }
}

/// The field of the present screen.
pub open spec fn field_of(m: AppModel) -> InputModel {
    match m.screen {
        Screen::Blocks => m.block_field,
        Screen::Console => m.console,
        _ => m.field,
    }
}

/// The present screen with another field.
pub open spec fn with_field(m: AppModel, f: InputModel) -> AppModel {
    match m.screen {
        Screen::Blocks => AppModel { block_field: f, ..m },
        Screen::Console => AppModel { console: f, ..m },
        _ => AppModel { field: f, ..m },
    }
}

pub open spec fn edit_begun(m: AppModel) -> AppModel {
    if m.screen is Card {
        m
    } else {
        AppModel { snap: Some((field_of(m).value, m.id, m.origin)), editing: true, ..m }
    }
}

pub open spec fn edit_ended(m: AppModel, revert: bool) -> AppModel {
    let n = AppModel { snap: None, editing: false, ..m };
    match m.snap {
        Some((text, id, origin)) => if revert {
            AppModel { id, origin, field_err: None, ..with_field(n, input_of(text)) }
        } else {
            n
        },
        None => n,
    }
}

impl App {
    pub fn reparse(&mut self)
        ensures
            final(self)@ == reparsed(old(self)@),
    {
        match em4100_parse(self.field.value.as_str(), self.form, self.id) {
            Ok(id) => {
                self.id = id;
                self.field_err = None;
            },
            Err(e) => {
                self.field_err = Some(e);
            },
        }
    }

    pub fn capture(&mut self)
        requires
            old(self)@.wf(),
        ensures
            final(self)@ == captured(old(self)@),
            final(self)@.wf(),
    {
        let pad = self.pad.copy();
        match pad {
            Pad::Lf { id, .. } => {
                self.id = id;
                self.origin = Origin::Captured;
                self.sync_field();
                self.log("captured ".to_owned().concat(hex(id.as_slice()).as_str()), false);
            },
            Pad::Hf(c) => {
                self.log(
                    hex(c.uid.as_slice()).concat(" is a card UID. This screen takes IDs."),
                    true,
                );
            },
            Pad::Empty => {
                self.log("nothing on the pad".to_owned(), true);
            },
        }
    }

    pub fn next_step(&self) -> (r: &'static str)
        ensures
            r@ == next_step_of(self@),
    {
        match &self.pad {
            Pad::Hf(_) => "13.56 MHz card. Screen 2 reads those.",
            Pad::Empty => {
                if self.origin == Origin::Blank {
                    "set the tag you want to copy on the pad"
                } else {
                    "set a blank down. w writes."
                }
            },
            Pad::Lf { id, .. } => {
                if self.origin == Origin::Blank {
                    "c captures this tag"
                } else if same_id(*id, self.id) {
                    "the tag matches the buffer"
                } else {
                    "w overwrites this tag with the buffer"
                }
            },
        }
    }

    pub fn seed(&mut self, id: [u8; 5])
        requires
            old(self)@.wf(),
        ensures
            final(self)@ == seeded(old(self)@, id@),
            final(self)@.wf(),
    {
        if self.origin == Origin::Blank && !self.editing {
            self.id = id;
            self.origin = Origin::Captured;
            self.sync_field();
        }
    }

    pub fn begin_edit(&mut self)
        requires
            old(self)@.wf(),
        ensures
            final(self)@ == edit_begun(old(self)@),
            final(self)@.wf(),
    {
        if self.screen == Screen::Card {
            return;
        }
        let text = match self.screen {
            Screen::Blocks => self.block_field.value.as_str().to_owned(),
            Screen::Console => self.console.value.as_str().to_owned(),
            _ => self.field.value.as_str().to_owned(),
        };
        self.snap = Some((text, self.id, self.origin));
        self.editing = true;
    }

    pub fn end_edit(&mut self, revert: bool)
        requires
            old(self)@.wf(),
        ensures
            final(self)@ == edit_ended(old(self)@, revert),
            final(self)@.wf(),
    {
        let snap = self.snap.take();
        self.editing = false;
        match snap {
            Some((text, id, origin)) => {
                if revert {
                    self.id = id;
                    self.origin = origin;
                    match self.screen {
                        Screen::Blocks => self.block_field.set(text.as_str()),
                        Screen::Console => self.console.set(text.as_str()),
                        _ => self.field.set(text.as_str()),
                    }
                    self.field_err = None;
                }
            },
            None => {},
        }
    }
}

// ---- writes ----

/// What a prompt says of the tag that a 125 kHz write would hit.
pub open spec fn target_of(pad: PadModel, id: Option<Seq<u8>>) -> Seq<char> {
    match pad {
        PadModel::Empty => if id is Some {
            "Nothing reads on the pad. Normal for a blank, which is silent until block 0 is set."@
        } else {
            "Nothing reads on the pad."@
        },
        PadModel::Lf { id: cur, freq } => if id == Some(cur) {
            "It already reads as "@ + hex_text(cur) + "."@
        } else {
            "WARNING: the tag reads as "@ + hex_text(cur)
                + ". That will be erased. Stop if you cannot replace it."@
        },
        PadModel::Hf(c) => "A "@ + kind_of(c.sak)
            + " is on the pad. A 125 kHz write will not touch it."@,
    }
}

pub open spec fn go_ahead() -> Seq<char> {
    "y to go ahead. Any other key cancels."@
}

pub open spec fn write_prompt_of(m: AppModel) -> Seq<Seq<char>> {
    let head = seq![
        "Write "@ + hex_text(m.id) + " to the tag on the pad?"@,
        target_of(m.pad, Some(m.id)),
    ];
    (if m.write_config {
        head.push("Block 0 will be set to "@ + hex_text(T5577_EM4100@) + "."@)
    } else {
        head
    }).push(go_ahead())
}

/// A write of the buffer waits for a yes, unless the text of the field does
/// not parse.
pub open spec fn staged_write_lf(m: AppModel) -> AppModel {
    match m.field_err {
        Some(e) => logged(m, "fix the ID first: "@ + e, true),
        None => AppModel {
            confirm: Some(
                ConfirmModel {
                    prompt: write_prompt_of(m),
                    job: JobModel::WriteLf(m.id, m.write_config),
                },
            ),
            ..m
        },
    }
}

pub open spec fn wipe_prompt_of(m: AppModel) -> Seq<Seq<char>> {
    seq![
        "Zero every block of the tag on the pad?"@,
        target_of(m.pad, None),
        "Afterwards it emits nothing until block 0 is set again."@,
        go_ahead(),
    ]
}

/// A wipe waits for a yes.
pub open spec fn staged_wipe(m: AppModel) -> AppModel {
    AppModel {
        confirm: Some(ConfirmModel { prompt: wipe_prompt_of(m), job: JobModel::Wipe }),
        ..m
    }
}

pub open spec fn block_prompt_of(m: AppModel, data: Seq<u8>) -> Seq<Seq<char>> {
    let head = seq!["Write "@ + hex_text(data) + " to block "@ + dec_text(m.block_sel as nat) + "?"@];
    let config = if m.block_sel == 0 {
        head.push(
            "Block 0 is the config word. A wrong value stops the tag emitting at all."@,
        )
    } else {
        head
    };
    (match m.pad {
        PadModel::Lf { id, freq } => config.push(
            "The tag reads as "@ + hex_text(id) + ". Blocks 1 and 2 change that."@,
        ),
        _ => config,
    }).push(go_ahead())
}

/// A write of one block waits for a yes, if the field holds four bytes.
pub open spec fn staged_write_block(m: AppModel) -> AppModel {
    match exact_value(m.block_field.value, 4, "a block is 4 bytes, got "@) {
        Err(e) => logged(m, e, true),
        Ok(data) => AppModel {
            confirm: Some(
                ConfirmModel {
                    prompt: block_prompt_of(m, data),
                    job: JobModel::WriteBlock(m.block_sel, data),
                },
            ),
            ..m
        },
    }
}

fn target(pad: &Pad, id: Option<[u8; 5]>) -> (r: String)
    ensures
        r@ == target_of(pad@, crate::command::id_view(id)),
{
    match pad {
        Pad::Empty => match id {
            Some(_) => "Nothing reads on the pad. Normal for a blank, which is silent until block 0 is set.".to_owned(),
            None => "Nothing reads on the pad.".to_owned(),
        },
        Pad::Lf { id: cur, .. } => {
            let same = match id {
                Some(id) => same_id(id, *cur),
                None => false,
            };
            if same {
                "It already reads as ".to_owned().concat(hex(cur.as_slice()).as_str()).concat(".")
            } else {
                "WARNING: the tag reads as ".to_owned().concat(
                    hex(cur.as_slice()).as_str(),
                ).concat(". That will be erased. Stop if you cannot replace it.")
            }
        },
        Pad::Hf(c) => "A ".to_owned().concat(c.kind()).concat(
            " is on the pad. A 125 kHz write will not touch it.",
        ),
    }
}

impl App {
    pub fn stage_write_lf(&mut self)
        requires
            old(self)@.wf(),
        ensures
            final(self)@ == staged_write_lf(old(self)@),
            final(self)@.wf(),
    {
        let fault = match &self.field_err {
            Some(e) => Some("fix the ID first: ".to_owned().concat(e.as_str())),
            None => None,
        };
        match fault {
            Some(m) => {
                self.log(m, true);
                return;
            },
            None => {},
        }
        let id = self.id;
        let mut prompt = one_line(
            "Write ".to_owned().concat(hex(id.as_slice()).as_str()).concat(
                " to the tag on the pad?",
            ),
        );
        push_text(&mut prompt, target(&self.pad, Some(id)));
        if self.write_config {
            push_text(
                &mut prompt,
                "Block 0 will be set to ".to_owned().concat(
                    hex(T5577_EM4100.as_slice()).as_str(),
                ).concat("."),
            );
        }
        push_text(&mut prompt, "y to go ahead. Any other key cancels.".to_owned());
        self.confirm = Some(Confirm { prompt, job: Job::WriteLf(id, self.write_config) });
    }

    pub fn stage_wipe(&mut self)
        requires
            old(self)@.wf(),
        ensures
            final(self)@ == staged_wipe(old(self)@),
            final(self)@.wf(),
    {
        let mut prompt = one_line("Zero every block of the tag on the pad?".to_owned());
        push_text(&mut prompt, target(&self.pad, None));
        push_text(
            &mut prompt,
            "Afterwards it emits nothing until block 0 is set again.".to_owned(),
        );
        push_text(&mut prompt, "y to go ahead. Any other key cancels.".to_owned());
        self.confirm = Some(Confirm { prompt, job: Job::Wipe });
    }

    pub fn stage_write_block(&mut self)
        requires
            old(self)@.wf(),
        ensures
            final(self)@ == staged_write_block(old(self)@),
            final(self)@.wf(),
    {
        let v = match crate::hexes::unhex_exact(
            self.block_field.value.as_str(),
            4,
            "a block is 4 bytes, got ",
        ) {
            Err(e) => {
                self.log(e, true);
                return;
            },
            Ok(v) => v,
        };
        let data: [u8; 4] = [v[0], v[1], v[2], v[3]];
        assert(data@ =~= v@);
        let blk: u8 = self.block_sel;
        let mut prompt = one_line(
            "Write ".to_owned().concat(hex(data.as_slice()).as_str()).concat(" to block ").concat(
                dec(blk as u64).as_str(),
            ).concat("?"),
        );
        if blk == 0 {
            push_text(
                &mut prompt,
                "Block 0 is the config word. A wrong value stops the tag emitting at all.".to_owned(),
            );
        }
        match &self.pad {
            Pad::Lf { id, .. } => {
                push_text(
                    &mut prompt,
                    "The tag reads as ".to_owned().concat(hex(id.as_slice()).as_str()).concat(
                        ". Blocks 1 and 2 change that.",
                    ),
                );
            },
            _ => {},
        }
        push_text(&mut prompt, "y to go ahead. Any other key cancels.".to_owned());
        self.confirm = Some(Confirm { prompt, job: Job::WriteBlock(blk, data) });
    }
}

// ---- console and dump ----

/// The payload typed into the console goes to the reader.
pub open spec fn console_sent(m: AppModel) -> AppModel {
    match unhex_value(m.console.value) {
        Err(e) => logged(m, e, true),
        Ok(p) => if p.len() == 0 {
            logged(m, "nothing to send"@, true)
        } else {
            queued(m, JobModel::Raw(p))
        },
    }
}

/// Bytes in hex without blanks.
pub open spec fn plain_hex_of(bytes: Seq<u8>) -> Seq<char>
    decreases bytes.len(),
{
    if bytes.len() == 0 {
        Seq::empty()
    } else {
        plain_hex_of(bytes.drop_last()) + hex2(bytes.last())
    }
}

fn plain_hex(bytes: &[u8]) -> (r: String)
    ensures
        r@ == plain_hex_of(bytes@),
{
    let mut s = String::new();
    let n: usize = bytes.len();
    let mut i: usize = 0;
    assert(bytes@.take(0) =~= Seq::empty());
    assert(s@ =~= Seq::empty());
    while i < n
        invariant
            i <= n == bytes@.len(),
            s@ == plain_hex_of(bytes@.take(i as int)),
        decreases n - i,
    {
        assert(bytes@.take(i + 1).drop_last() =~= bytes@.take(i as int));
        push_hex2(&mut s, bytes[i]);
        i += 1;
    }
    assert(bytes@.take(n as int) =~= bytes@);
    s
}

/// Blocks one after another.
pub open spec fn flat(blocks: Seq<Seq<u8>>) -> Seq<u8>
    decreases blocks.len(),
{
    if blocks.len() == 0 {
        Seq::empty()
    } else {
        flat(blocks.drop_last()) + blocks.last()
    }
}

/// Exactly so many bytes: cut off, or filled up with zeroes.
pub open spec fn resized(bytes: Seq<u8>, n: int) -> Seq<u8> {
    Seq::new(
        n as nat,
        |i: int|
            if i < bytes.len() {
                bytes[i]
            } else {
                0u8
            },
    )
}

/// A sector as it stands in a dump file. One with no key is filled with
/// zeroes, so block numbering in the file still lines up with the card.
pub open spec fn sector_bytes(s: SectorModel) -> Seq<u8> {
    resized(flat(s.blocks), 16 * sector_len(s.number as int))
}

pub open spec fn dump_bytes_of(dump: Seq<SectorModel>) -> Seq<u8>
    decreases dump.len(),
{
    if dump.len() == 0 {
        Seq::empty()
    } else {
        dump_bytes_of(dump.drop_last()) + sector_bytes(dump.last())
    }
}

pub open spec fn dump_path_of(pad: PadModel) -> Seq<char> {
    (match pad {
        PadModel::Hf(c) => plain_hex_of(c.uid),
        _ => "card"@,
    }) + ".dump"@
}

/// The dump is to be written to a file named for the card.
pub open spec fn dump_saved(m: AppModel) -> AppModel {
    if m.dump.len() == 0 {
        logged(m, "no dump to save"@, true)
    } else {
        AppModel {
            outbox: m.outbox.push(
                RequestModel::Save { path: dump_path_of(m.pad), bytes: dump_bytes_of(m.dump) },
            ),
            ..m
        }
    }
}

/// What becomes of a dump that was to be written.
pub open spec fn save_told(m: AppModel, path: Seq<char>, bytes: nat, fault: Option<Seq<char>>) -> AppModel {
    match fault {
        None => logged(m, "wrote "@ + dec_text(bytes) + " bytes to "@ + path, false),
        Some(e) => logged(m, path + ": "@ + e, true),
    }
}

fn push_sector(out: &mut Vec<u8>, s: &Sector)
    requires
        s.number < MAX_SECTORS,
    ensures
        final(out)@ == old(out)@ + sector_bytes(s@),
{
    let (_first, len) = sector_span(s.number);
    let want: usize = 16 * len as usize;
    let mut v: Vec<u8> = Vec::new();
    let n: usize = s.blocks.len();
    let mut i: usize = 0;
    let ghost all = blocks_view(s.blocks@);
    assert(all.take(0) =~= Seq::empty());
    assert(v@ =~= flat(all.take(0)));
    while i < n
        invariant
            i <= n == s.blocks@.len(),
            all == blocks_view(s.blocks@),
            v@ == flat(all.take(i as int)),
        decreases n - i,
    {
        assert(all.take(i + 1).drop_last() =~= all.take(i as int));
        assert(all[i as int] == s.blocks@[i as int]@);
        crate::command::push_bytes(&mut v, s.blocks[i].as_slice());
        i += 1;
    }
    assert(all.take(n as int) =~= all);
    let ghost bytes = v@;
    let have: usize = v.len();
    let mut j: usize = 0;
    assert(out@ =~= old(out)@ + resized(bytes, 0));
    while j < want
        invariant
            j <= want,
            v@ == bytes,
            have == v@.len(),
            out@ == old(out)@ + resized(bytes, j as int),
        decreases want - j,
    {
        let b: u8 = if j < have {
            v[j]
        } else {
            0
        };
        out.push(b);
        j += 1;
        assert(out@ =~= old(out)@ + resized(bytes, j as int));
    }
}

fn dump_bytes(dump: &Vec<Sector>) -> (r: Vec<u8>)
    requires
        forall|i: int| 0 <= i < dump@.len() ==> (#[trigger] dump@[i]).number < MAX_SECTORS,
    ensures
        r@ == dump_bytes_of(dump_view(dump@)),
{
    let mut out: Vec<u8> = Vec::new();
    let n: usize = dump.len();
    let mut i: usize = 0;
    let ghost all = dump_view(dump@);
    assert(all.take(0) =~= Seq::empty());
    assert(out@ =~= dump_bytes_of(all.take(0)));
    while i < n
        invariant
            i <= n == dump@.len(),
            all == dump_view(dump@),
            out@ == dump_bytes_of(all.take(i as int)),
            forall|i: int| 0 <= i < dump@.len() ==> (#[trigger] dump@[i]).number < MAX_SECTORS,
        decreases n - i,
    {
        assert(all.take(i + 1).drop_last() =~= all.take(i as int));
        assert(all[i as int] == dump@[i as int]@);
        push_sector(&mut out, &dump[i]);
        i += 1;
    }
    assert(all.take(n as int) =~= all);
    out
}

impl App {
    pub fn send_console(&mut self)
        requires
            old(self)@.wf(),
        ensures
            final(self)@ == console_sent(old(self)@),
            final(self)@.wf(),
    {
        match unhex(self.console.value.as_str()) {
            Err(e) => self.log(e, true),
            Ok(p) => {
                if p.len() == 0 {
                    self.log("nothing to send".to_owned(), true);
                } else {
                    self.queue(Job::Raw(p));
                }
            },
        }
    }

    pub fn save_dump(&mut self)
        requires
            old(self)@.wf(),
        ensures
            final(self)@ == dump_saved(old(self)@),
            final(self)@.wf(),
    {
        if self.dump.len() == 0 {
            self.log("no dump to save".to_owned(), true);
            return;
        }
        let name = match &self.pad {
            Pad::Hf(c) => plain_hex(c.uid.as_slice()),
            _ => "card".to_owned(),
        };
        let path = name.concat(".dump");
        assert forall|i: int| 0 <= i < self.dump@.len() implies (
            #[trigger] self.dump@[i]).number < MAX_SECTORS by {
            assert(self@.dump[i].number == self.dump@[i].number);
        }
        let bytes = dump_bytes(&self.dump);
        let r = Request::Save { path, bytes };
        self.outbox.push(r);
        assert(outbox_view(self.outbox@) =~= old(self)@.outbox.push(r@));
    }

    /// Say what became of a dump that was to be saved.
    pub fn saved(&mut self, path: &str, bytes: usize, fault: Option<String>)
        requires
            old(self)@.wf(),
        ensures
            final(self)@ == save_told(old(self)@, path@, bytes as nat, err_view(fault)),
            final(self)@.wf(),
    {
        match fault {
            None => self.log(
                "wrote ".to_owned().concat(dec(bytes as u64).as_str()).concat(
                    " bytes to ",
                ).concat(path),
                false,
            ),
            Some(e) => self.log(path.to_owned().concat(": ").concat(e.as_str()), true),
        }
    }
}

// ---- keys ----

pub open spec fn up(k: Key) -> bool {
    k is Up || k == Key::Char('k')
}

pub open spec fn down(k: Key) -> bool {
    k is Down || k == Key::Char('j')
}

pub open spec fn key_tag(m: AppModel, k: Key) -> AppModel {
    if up(k) {
        synced(AppModel { form: form_before(m.form), ..m })
    } else if down(k) {
        synced(AppModel { form: form_after(m.form), ..m })
    } else if k == Key::Char('r') {
        queued(m, JobModel::ReadLf)
    } else if k == Key::Char('c') {
        captured(m)
    } else if k == Key::Char('w') {
        staged_write_lf(m)
    } else if k == Key::Char('x') {
        staged_wipe(m)
    } else if k == Key::Char('0') {
        logged(
            AppModel { write_config: !m.write_config, ..m },
            "block 0 "@ + (if m.write_config {
                "off"@
            } else {
                "on"@
            }),
            false,
        )
    } else {
        m
    }
}

pub open spec fn key_card(m: AppModel, k: Key) -> AppModel {
    if k == Key::Char('d') {
        queued(AppModel { dump: Seq::empty(), ..m }, JobModel::Dump)
    } else if k == Key::Char('s') {
        dump_saved(m)
    } else {
        m
    }
}

pub open spec fn key_blocks(m: AppModel, k: Key) -> AppModel {
    if down(k) {
        AppModel {
            block_sel: if m.block_sel < LAST_BLOCK {
                (m.block_sel + 1) as u8
            } else {
                LAST_BLOCK
            },
            ..m
        }
    } else if up(k) {
        AppModel {
            block_sel: if m.block_sel > 0 {
                (m.block_sel - 1) as u8
            } else {
                0
            },
            ..m
        }
    } else if k == Key::Char('w') {
        staged_write_block(m)
    } else {
        m
    }
}

/// The console with a known command loaded.
pub open spec fn loaded(m: AppModel, i: int) -> AppModel {
    AppModel { example: i, console: input_of(example_of(i).1), ..m }
}

pub open spec fn key_console(m: AppModel, k: Key) -> AppModel {
    if up(k) {
        loaded(
            m,
            if m.example == 0 {
                EXAMPLES - 1
            } else {
                m.example - 1
            },
        )
    } else if down(k) {
        loaded(
            m,
            if m.example + 1 == EXAMPLES {
                0
            } else {
                m.example + 1
            },
        )
    } else if k is Enter {
        console_sent(m)
    } else {
        m
    }
}

/// A key that means something to the present screen only.
pub open spec fn key_screen_of(m: AppModel, k: Key) -> AppModel {
    match m.screen {
        Screen::Tag => key_tag(m, k),
        Screen::Card => key_card(m, k),
        Screen::Blocks => key_blocks(m, k),
        Screen::Console => key_console(m, k),
    }
}

/// A key while editing. The field takes everything except the two keys that
/// leave it, or typing "w" into a hex field would start a write.
pub open spec fn key_editing_of(m: AppModel, k: Key) -> AppModel {
    if k is Esc {
        edit_ended(m, true)
    } else if k is Enter {
        if m.screen is Console {
            console_sent(edit_ended(m, false))
        } else {
            edit_ended(m, false)
        }
    } else {
        match m.screen {
            Screen::Tag => reparsed(
                AppModel { field: typed(m.field, k), origin: Origin::Typed, ..m },
            ),
            Screen::Blocks => AppModel { block_field: typed(m.block_field, k), ..m },
            Screen::Console => AppModel { console: typed(m.console, k), ..m },
            Screen::Card => m,
        }
    }
}

/// The answer to a prompt. Any key but `y` cancels.
pub open spec fn answered(m: AppModel, c: ConfirmModel, k: Key) -> AppModel {
    let n = AppModel { confirm: None, ..m };
    if k == Key::Char('y') {
        queued(n, c.job)
    } else {
        logged(n, "cancelled"@, false)
    }
}

/// The app after a key, and whether it goes on. Help and a prompt swallow the
/// key, so `y` never doubles as a shortcut.
pub open spec fn key_of(m: AppModel, k: Key) -> (AppModel, bool) {
    if m.help {
        (AppModel { help: false, ..m }, true)
    } else if m.confirm is Some {
        (answered(m, m.confirm->Some_0, k), true)
    } else if m.editing {
        (key_editing_of(m, k), true)
    } else if k == Key::Char('q') {
        (m, false)
    } else if k == Key::Char('?') {
        (AppModel { help: true, ..m }, true)
    } else if k is Right || k is Tab {
        (AppModel { screen: screen_after(m.screen), ..m }, true)
    } else if k is Left || k is BackTab {
        (AppModel { screen: screen_before(m.screen), ..m }, true)
    } else if k == Key::Char('1') {
        (AppModel { screen: Screen::Tag, ..m }, true)
    } else if k == Key::Char('2') {
        (AppModel { screen: Screen::Card, ..m }, true)
    } else if k == Key::Char('3') {
        (AppModel { screen: Screen::Blocks, ..m }, true)
    } else if k == Key::Char('4') {
        (AppModel { screen: Screen::Console, ..m }, true)
    } else if k == Key::Char('b') {
        (queued(m, JobModel::Beep), true)
    } else if k == Key::Char('e') {
        (edit_begun(m), true)
    } else {
        (key_screen_of(m, k), true)
    }
}

fn is_up(k: Key) -> (r: bool)
    ensures
        r == up(k),
{
    k == Key::Up || k == Key::Char('k')
}

fn is_down(k: Key) -> (r: bool)
    ensures
        r == down(k),
{
    k == Key::Down || k == Key::Char('j')
}

impl App {
    fn on_tag(&mut self, k: Key)
        requires
            old(self)@.wf(),
        ensures
            final(self)@ == key_tag(old(self)@, k),
            final(self)@.wf(),
    {
        if is_up(k) {
            self.form = self.form.step(true);
            self.sync_field();
        } else if is_down(k) {
            self.form = self.form.step(false);
            self.sync_field();
        } else if k == Key::Char('r') {
            self.queue(Job::ReadLf);
        } else if k == Key::Char('c') {
            self.capture();
        } else if k == Key::Char('w') {
            self.stage_write_lf();
        } else if k == Key::Char('x') {
            self.stage_wipe();
        } else if k == Key::Char('0') {
            self.write_config = !self.write_config;
            let on: &str = if self.write_config {
                "on"
            } else {
                "off"
            };
            self.log("block 0 ".to_owned().concat(on), false);
        }
    }

    fn on_card(&mut self, k: Key)
        requires
            old(self)@.wf(),
        ensures
            final(self)@ == key_card(old(self)@, k),
            final(self)@.wf(),
    {
        if k == Key::Char('d') {
            self.dump = Vec::new();
            assert(dump_view(self.dump@) =~= Seq::empty());
            self.queue(Job::Dump);
        } else if k == Key::Char('s') {
            self.save_dump();
        }
    }

    fn on_blocks(&mut self, k: Key)
        requires
            old(self)@.wf(),
        ensures
            final(self)@ == key_blocks(old(self)@, k),
            final(self)@.wf(),
    {
        if is_down(k) {
            self.block_sel = if self.block_sel < LAST_BLOCK {
                self.block_sel + 1
            } else {
                LAST_BLOCK
            };
        } else if is_up(k) {
            self.block_sel = if self.block_sel > 0 {
                self.block_sel - 1
            } else {
                0
            };
        } else if k == Key::Char('w') {
            self.stage_write_block();
        }
    }

    fn load(&mut self, i: usize)
        ensures
            final(self)@ == loaded(old(self)@, i as int),
            final(self)@.console.wf(),
    {
        self.example = i;
        self.console.set(example(i).1);
    }

    fn on_console(&mut self, k: Key)
        requires
            old(self)@.wf(),
        ensures
            final(self)@ == key_console(old(self)@, k),
            final(self)@.wf(),
    {
        if is_up(k) {
            let i: usize = if self.example == 0 {
                EXAMPLES - 1
            } else {
                self.example - 1
            };
            self.load(i);
        } else if is_down(k) {
            let i: usize = if self.example + 1 == EXAMPLES {
                0
            } else {
                self.example + 1
            };
            self.load(i);
        } else if k == Key::Enter {
            self.send_console();
        }
    }

    /// A key that means something to the present screen only.
    pub fn key_screen(&mut self, k: Key)
        requires
            old(self)@.wf(),
        ensures
            final(self)@ == key_screen_of(old(self)@, k),
            final(self)@.wf(),
    {
        match self.screen {
            Screen::Tag => self.on_tag(k),
            Screen::Card => self.on_card(k),
            Screen::Blocks => self.on_blocks(k),
            Screen::Console => self.on_console(k),
        }
    }

    fn key_editing(&mut self, k: Key)
        requires
            old(self)@.wf(),
        ensures
            final(self)@ == key_editing_of(old(self)@, k),
            final(self)@.wf(),
    {
        if k == Key::Esc {
            self.end_edit(true);
        } else if k == Key::Enter {
            self.end_edit(false);
            if self.screen == Screen::Console {
                self.send_console();
            }
        } else {
            match self.screen {
                Screen::Tag => {
                    self.field.key(k);
                    self.origin = Origin::Typed;
                    self.reparse();
                },
                Screen::Blocks => self.block_field.key(k),
                Screen::Console => self.console.key(k),
                Screen::Card => {},
            }
        }
    }

    /// False to quit.
    #[verifier::rlimit(30)]
    pub fn key(&mut self, k: Key) -> (r: bool)
        requires
            old(self)@.wf(),
        ensures
            (final(self)@, r) == key_of(old(self)@, k),
            final(self)@.wf(),
            old(self)@.edit_wf() ==> final(self)@.edit_wf(),
    {
        if self.help {
            self.help = false;
            return true;
        }
        let confirm = self.confirm.take();
        match confirm {
            Some(c) => {
                if k == Key::Char('y') {
                    self.queue(c.job);
                } else {
                    self.log("cancelled".to_owned(), false);
                }
                return true;
            },
            None => {},
        }
        if self.editing {
            self.key_editing(k);
            return true;
        }
        if k == Key::Char('q') {
            return false;
        }
        if k == Key::Char('?') {
            self.help = true;
        } else if k == Key::Right || k == Key::Tab {
            self.screen = self.screen.step(false);
        } else if k == Key::Left || k == Key::BackTab {
            self.screen = self.screen.step(true);
        } else if k == Key::Char('1') {
            self.screen = Screen::Tag;
        } else if k == Key::Char('2') {
            self.screen = Screen::Card;
        } else if k == Key::Char('3') {
            self.screen = Screen::Blocks;
        } else if k == Key::Char('4') {
            self.screen = Screen::Console;
        } else if k == Key::Char('b') {
            self.queue(Job::Beep);
        } else if k == Key::Char('e') {
            self.begin_edit();
        } else {
            self.key_screen(k);
        }
        true
    }
}

/// A key with or without Control held. Control-C leaves at once.
pub open spec fn pressed(m: AppModel, ctrl: bool, k: Key) -> (AppModel, bool) {
    if ctrl && k == Key::Char('c') {
        (m, false)
    } else {
        key_of(m, k)
    }
}

impl App {
    /// False to quit.
    pub fn press(&mut self, ctrl: bool, k: Key) -> (r: bool)
        requires
            old(self)@.wf(),
        ensures
            (final(self)@, r) == pressed(old(self)@, ctrl, k),
            final(self)@.wf(),
            old(self)@.edit_wf() ==> final(self)@.edit_wf(),
    {
        if ctrl && k == Key::Char('c') {
            return false;
        }
        self.key(k)
    }
}

// ---- laws ----

/// A tag on the pad fills the buffer only while it is untouched. A captured or
/// typed ID stays, and so does one that is being typed.
pub proof fn the_pad_does_not_clobber_the_buffer(m: AppModel, id: Seq<u8>)
    requires
        !(m.origin is Blank) || m.editing,
    ensures
        seeded(m, id) == m,
{
}

/// Whatever was seeded, a second tag leaves it alone.
pub proof fn the_buffer_is_seeded_once(m: AppModel, first: Seq<u8>, second: Seq<u8>)
    ensures
        seeded(seeded(m, first), second) == seeded(m, first),
{
}

/// The buffer changes only by a capture on the tag screen, by typing into its
/// field, or by taking such typing back.
pub proof fn only_capture_and_typing_change_the_id(m: AppModel, k: Key)
    requires
        m.wf(),
        key_of(m, k).0.id != m.id,
    ensures
        !m.help,
        m.confirm is None,
        m.editing || (m.screen is Tag && k == Key::Char('c') && m.pad is Lf),
{
}

/// Text that does not parse leaves the ID alone and is flagged, and while it is
/// flagged no write of the buffer can be staged.
pub proof fn a_half_typed_id_is_never_written(m: AppModel)
    requires
        em4100_value(m.field.value, m.form, m.id) is Err,
    ensures
        reparsed(m).id == m.id,
        reparsed(m).field_err is Some,
        staged_write_lf(reparsed(m)).confirm == m.confirm,
{
}

/// Keys typed into a field are not commands: but for Enter and Esc they change
/// nothing except the field, and on the tag screen the buffer behind it.
pub proof fn keys_typed_into_a_field_are_not_commands(m: AppModel, k: Key)
    requires
        m.editing,
        !m.help,
        m.confirm is None,
        !(k is Enter),
        !(k is Esc),
    ensures
        ({
            let (n, on) = key_of(m, k);
            &&& on
            &&& n == AppModel {
                field: n.field,
                block_field: n.block_field,
                console: n.console,
                id: n.id,
                origin: n.origin,
                field_err: n.field_err,
                ..m
            }
        }),
{
}

/// The app after a run of keys.
pub open spec fn after_keys(m: AppModel, ks: Seq<Key>) -> AppModel
    decreases ks.len(),
{
    if ks.len() == 0 {
        m
    } else {
        key_of(after_keys(m, ks.drop_last()), ks.last()).0
    }
}

proof fn lemma_typing_keeps_the_snap(m: AppModel, ks: Seq<Key>)
    requires
        m.editing,
        !m.help,
        m.confirm is None,
        forall|i: int| 0 <= i < ks.len() ==> !(#[trigger] ks[i] is Enter) && !(ks[i] is Esc),
    ensures
        ({
            let n = after_keys(m, ks);
            &&& n == AppModel {
                field: n.field,
                block_field: n.block_field,
                console: n.console,
                id: n.id,
                origin: n.origin,
                field_err: n.field_err,
                ..m
            }
            &&& !(m.screen is Tag) ==> n.field == m.field && n.id == m.id && n.origin == m.origin
                && n.field_err == m.field_err
            &&& !(m.screen is Blocks) ==> n.block_field == m.block_field
            &&& !(m.screen is Console) ==> n.console == m.console
        }),
    decreases ks.len(),
{
    if ks.len() > 0 {
        assert forall|i: int| 0 <= i < ks.drop_last().len() implies !(
            #[trigger] ks.drop_last()[i] is Enter) && !(ks.drop_last()[i] is Esc) by {
            assert(ks.drop_last()[i] == ks[i]);
        }
        lemma_typing_keeps_the_snap(m, ks.drop_last());
        assert(!(ks[ks.len() - 1] is Enter));
    }
}

/// Esc takes an edit back: whatever was typed, the ID, where it came from and
/// the text of the field are as they were, nothing was sent and nothing is
/// staged.
pub proof fn esc_restores_what_editing_started_from(m: AppModel, ks: Seq<Key>)
    requires
        m.wf(),
        !m.editing,
        !m.help,
        m.confirm is None,
        !(m.screen is Card),
        forall|i: int| 0 <= i < ks.len() ==> !(#[trigger] ks[i] is Enter) && !(ks[i] is Esc),
    ensures
        ({
            let n = key_of(after_keys(edit_begun(m), ks), Key::Esc).0;
            n == AppModel {
                field_err: None,
                snap: None,
                ..with_field(m, input_of(field_of(m).value))
            }
        }),
{
    lemma_typing_keeps_the_snap(edit_begun(m), ks);
}

/// Enter keeps an edit: the ID, where it came from and the text of the field
/// stay as typed, and editing is over.
pub proof fn enter_keeps_what_was_typed(m: AppModel)
    requires
        m.editing,
        !m.help,
        m.confirm is None,
    ensures
        ({
            let n = key_of(m, Key::Enter).0;
            &&& !n.editing
            &&& n.id == m.id
            &&& n.origin == m.origin
            &&& field_of(n) == field_of(m)
            &&& n.field_err == m.field_err
        }),
{
}

/// A staged write goes to the reader on `y` and on no other key, and any key
/// unstages it.
pub proof fn only_y_confirms(m: AppModel, k: Key)
    requires
        !m.help,
        m.confirm is Some,
    ensures
        ({
            let (n, on) = key_of(m, k);
            &&& on
            &&& n.confirm is None
            &&& n.outbox == if k == Key::Char('y') {
                m.outbox.push(RequestModel::Job(m.confirm->Some_0.job))
            } else {
                m.outbox
            }
        }),
{
}

/// A job that writes to a tag.
pub open spec fn is_write(job: JobModel) -> bool {
    job is WriteLf || job is WriteBlock || job is Wipe
}

/// No key puts a write into the outbox but a `y` to a prompt for that write.
pub proof fn no_write_without_a_yes(m: AppModel, k: Key, job: JobModel)
    requires
        is_write(job),
        key_of(m, k).0.outbox != m.outbox,
        key_of(m, k).0.outbox.last() == RequestModel::Job(job),
    ensures
        !m.help,
        k == Key::Char('y'),
        m.confirm matches Some(c) && c.job == job,
{
}

/// A key adds at most one request, and takes none away.
pub proof fn a_key_asks_for_one_thing_at_most(m: AppModel, k: Key)
    ensures
        ({
            let n = key_of(m, k).0;
            n.outbox == m.outbox || n.outbox == m.outbox.push(n.outbox.last())
        }),
{
    let n = key_of(m, k).0;
    if n.outbox != m.outbox {
        assert(n.outbox =~= m.outbox.push(n.outbox.last()));
    }
}

/// The prompt of a write names the ID that would be written and, if another
/// tag lies on the pad, the ID that would be erased.
pub proof fn the_prompt_names_the_tag_it_would_erase(m: AppModel, cur: Seq<u8>, freq: u32)
    requires
        m.field_err is None,
        m.pad == (PadModel::Lf { id: cur, freq }),
        cur != m.id,
    ensures
        staged_write_lf(m).confirm matches Some(c) && {
            &&& c.job == JobModel::WriteLf(m.id, m.write_config)
            &&& c.prompt[0] == "Write "@ + hex_text(m.id) + " to the tag on the pad?"@
            &&& c.prompt[1] == "WARNING: the tag reads as "@ + hex_text(cur)
                + ". That will be erased. Stop if you cannot replace it."@
        },
{
}

/// The prompt for block 0 warns of the config word, and no other does, whatever
/// is on the pad.
pub proof fn block_zero_warns(m: AppModel, data: Seq<u8>)
    requires
        exact_value(m.block_field.value, 4, "a block is 4 bytes, got "@)
            == Ok::<Seq<u8>, Seq<char>>(data),
    ensures
        staged_write_block(m).confirm matches Some(c) && {
            let warning =
                "Block 0 is the config word. A wrong value stops the tag emitting at all."@;
            &&& c.job == JobModel::WriteBlock(m.block_sel, data)
            &&& m.block_sel == 0 ==> c.prompt.len() > 1 && c.prompt[1] == warning
            &&& m.block_sel != 0 ==> !c.prompt.contains(warning)
        },
{
    // the lines differ in their first character
    reveal_strlit("Block 0 is the config word. A wrong value stops the tag emitting at all.");
    reveal_strlit("Write ");
    reveal_strlit("The tag reads as ");
    reveal_strlit("y to go ahead. Any other key cancels.");
    let prompt = block_prompt_of(m, data);
    if m.block_sel != 0 {
        assert forall|i: int| 0 <= i < prompt.len() implies (#[trigger] prompt[i])[0] != 'B' by {}
    }
}

/// A block is staged if the field spells exactly four bytes, and those bytes;
/// they are neither padded nor cut. Anything else stages nothing and is
/// reported.
pub proof fn a_block_is_four_bytes(m: AppModel)
    ensures
        ({
            let n = staged_write_block(m);
            match unhex_value(m.block_field.value) {
                Ok(data) => if data.len() == 4 {
                    n.confirm matches Some(c) && c.job == JobModel::WriteBlock(m.block_sel, data)
                } else {
                    n == logged(m, "a block is 4 bytes, got "@ + dec_text(data.len()), true)
                },
                Err(e) => n == logged(m, e, true),
            }
        }),
        staged_write_block(m).outbox == m.outbox,
{
}

/// On the tag screen up and down pick the form: one place on or back in the
/// ring, the ID shown anew in it, and nothing else touched. Forward and back
/// undo each other, and three steps come round.
pub proof fn up_and_down_pick_the_form(m: AppModel, fore: Key, back: Key)
    requires
        m.screen is Tag,
        down(fore),
        up(back),
    ensures
        ({
            let on = key_screen_of(m, fore);
            let off = key_screen_of(m, back);
            &&& on == AppModel {
                form: form_after(m.form),
                field: input_of(em4100_text(m.id, form_after(m.form))),
                field_err: None,
                ..m
            }
            &&& off == AppModel {
                form: form_before(m.form),
                field: input_of(em4100_text(m.id, form_before(m.form))),
                field_err: None,
                ..m
            }
            &&& key_screen_of(on, back).form == m.form
            &&& key_screen_of(off, fore).form == m.form
            &&& key_screen_of(key_screen_of(on, fore), fore).form == m.form
            &&& !m.help && m.confirm is None && !m.editing ==> key_of(m, fore) == (on, true)
                && key_of(m, back) == (off, true)
        }),
{
    crate::em4100::forms_go_round(m.form);
}

/// Walking the known commands one way and back ends where it began, and each
/// step loads the command it lands on.
pub proof fn known_commands_go_round(m: AppModel, fore: Key, back: Key)
    requires
        m.wf(),
        m.screen is Console,
        down(fore),
        up(back),
    ensures
        ({
            let on = key_screen_of(m, fore);
            let off = key_screen_of(m, back);
            &&& key_screen_of(on, back).example == m.example
            &&& key_screen_of(off, fore).example == m.example
            &&& on.console.value == example_of(on.example).1
            &&& off.console.value == example_of(off.example).1
            &&& !m.help && m.confirm is None && !m.editing ==> key_of(m, fore) == (on, true)
                && key_of(m, back) == (off, true)
        }),
{
}

proof fn lemma_dump_len(dump: Seq<SectorModel>)
    requires
        forall|i: int| 0 <= i < dump.len() ==> (#[trigger] dump[i]).number == i,
        dump.len() <= MAX_SECTORS,
    ensures
        dump_bytes_of(dump).len() == 16 * crate::mifare::sector_first(dump.len() as int),
    decreases dump.len(),
{
    if dump.len() > 0 {
        let p = dump.drop_last();
        assert forall|i: int| 0 <= i < p.len() implies (#[trigger] p[i]).number == i by {
            assert(p[i] == dump[i]);
        }
        lemma_dump_len(p);
        assert(dump.last().number == dump.len() - 1);
    }
}

/// In a saved dump every sector stands where its blocks are on the card,
/// whether or not the sectors before it could be read.
pub proof fn a_saved_sector_lines_up(dump: Seq<SectorModel>, s: int)
    requires
        forall|i: int| 0 <= i < dump.len() ==> (#[trigger] dump[i]).number == i,
        0 <= s < dump.len() <= MAX_SECTORS,
    ensures
        ({
            let at = 16 * crate::mifare::sector_first(s);
            dump_bytes_of(dump).subrange(at, at + 16 * sector_len(s)) == sector_bytes(dump[s])
        }),
    decreases dump.len(),
{
    let p = dump.drop_last();
    assert forall|i: int| 0 <= i < p.len() implies (#[trigger] p[i]).number == i by {
        assert(p[i] == dump[i]);
    }
    lemma_dump_len(dump);
    lemma_dump_len(p);
    let at = 16 * crate::mifare::sector_first(s);
    let all = dump_bytes_of(dump);
    if s == p.len() {
        assert(all.subrange(at, at + 16 * sector_len(s)) =~= sector_bytes(dump[s]));
    } else {
        a_saved_sector_lines_up(p, s);
        lemma_dump_len(dump.take(s + 1));
        assert(p[s] == dump[s]);
        assert(at + 16 * sector_len(s) <= dump_bytes_of(p).len());
        assert(all.subrange(at, at + 16 * sector_len(s)) =~= dump_bytes_of(p).subrange(
            at,
            at + 16 * sector_len(s),
        ));
    }
}

// ---- more laws of the keys ----

/// The keys that work on every screen, as long as no help, prompt or field is
/// in the way: `q` leaves, `?` shows help, left and right and the numbers change
/// the screen, `b` beeps, `e` edits. They touch nothing else.
pub proof fn keys_for_every_screen(m: AppModel)
    requires
        !m.help,
        m.confirm is None,
        !m.editing,
    ensures
        key_of(m, Key::Char('q')) == (m, false),
        key_of(m, Key::Char('?')) == (AppModel { help: true, ..m }, true),
        key_of(m, Key::Char('1')) == (AppModel { screen: Screen::Tag, ..m }, true),
        key_of(m, Key::Char('2')) == (AppModel { screen: Screen::Card, ..m }, true),
        key_of(m, Key::Char('3')) == (AppModel { screen: Screen::Blocks, ..m }, true),
        key_of(m, Key::Char('4')) == (AppModel { screen: Screen::Console, ..m }, true),
        key_of(m, Key::Char('b')) == (
            AppModel { outbox: m.outbox.push(RequestModel::Job(JobModel::Beep)), ..m },
            true,
        ),
        key_of(m, Key::Right).0 == key_of(m, Key::Tab).0,
        key_of(m, Key::Left).0 == key_of(m, Key::BackTab).0,
        m.screen is Tag ==> key_of(m, Key::Right).0.screen is Card && key_of(
            m,
            Key::Left,
        ).0.screen is Console,
        m.screen is Card ==> key_of(m, Key::Right).0.screen is Blocks && key_of(
            m,
            Key::Left,
        ).0.screen is Tag,
        m.screen is Blocks ==> key_of(m, Key::Right).0.screen is Console && key_of(
            m,
            Key::Left,
        ).0.screen is Card,
        m.screen is Console ==> key_of(m, Key::Right).0.screen is Tag && key_of(
            m,
            Key::Left,
        ).0.screen is Blocks,
        key_of(m, Key::Right).0 == (AppModel { screen: key_of(m, Key::Right).0.screen, ..m }),
        key_of(m, Key::Left).0 == (AppModel { screen: key_of(m, Key::Left).0.screen, ..m }),
        m.screen is Card ==> key_of(m, Key::Char('e')).0 == m,
        !(m.screen is Card) ==> key_of(m, Key::Char('e')).0 == (AppModel {
            editing: true,
            snap: Some((field_of(m).value, m.id, m.origin)),
            ..m
        }),
        m.screen is Tag ==> field_of(m) == m.field,
        m.screen is Blocks ==> field_of(m) == m.block_field,
        m.screen is Console ==> field_of(m) == m.console,
{
}

/// The keys of the tag screen: `r` reads, `c` captures, `w` stages the write of
/// the buffer, `x` a wipe, `0` turns the config word on and off. Any key it does
/// not know does nothing.
pub proof fn keys_of_the_tag_screen(m: AppModel, k: Key)
    requires
        m.screen is Tag,
    ensures
        key_screen_of(m, Key::Char('r')) == (AppModel {
            outbox: m.outbox.push(RequestModel::Job(JobModel::ReadLf)),
            ..m
        }),
        key_screen_of(m, Key::Char('c')) == captured(m),
        key_screen_of(m, Key::Char('w')) == staged_write_lf(m),
        key_screen_of(m, Key::Char('x')).confirm matches Some(c) && c.job is Wipe,
        key_screen_of(m, Key::Char('x')).outbox == m.outbox,
        key_screen_of(m, Key::Char('0')).write_config == !m.write_config,
        key_screen_of(m, Key::Char('0')).id == m.id,
        key_screen_of(m, Key::Char('0')).outbox == m.outbox,
        key_screen_of(m, Key::Char('0')).confirm == m.confirm,
        !up(k) && !down(k) && !(k is Char) ==> key_screen_of(m, k) == m,
        up(k) <==> k == Key::Up || k == Key::Char('k'),
        down(k) <==> k == Key::Down || k == Key::Char('j'),
{
}

/// The keys of the card screen: `d` starts a dump, and what was dumped before
/// goes; `s` asks for the dump to be saved.
pub proof fn keys_of_the_card_screen(m: AppModel, k: Key)
    requires
        m.screen is Card,
    ensures
        key_screen_of(m, Key::Char('d')) == (AppModel {
            dump: Seq::empty(),
            outbox: m.outbox.push(RequestModel::Job(JobModel::Dump)),
            ..m
        }),
        key_screen_of(m, Key::Char('s')) == dump_saved(m),
        k != Key::Char('d') && k != Key::Char('s') ==> key_screen_of(m, k) == m,
{
}

/// The keys of the blocks screen: up and down pick a block, from 0 to 7 and no
/// further, and `w` stages the write of the one picked.
pub proof fn keys_of_the_blocks_screen(m: AppModel, k: Key)
    requires
        m.wf(),
        m.screen is Blocks,
    ensures
        down(k) && m.block_sel < 7 ==> key_screen_of(m, k).block_sel == m.block_sel + 1,
        down(k) && m.block_sel == 7 ==> key_screen_of(m, k).block_sel == 7,
        up(k) && m.block_sel > 0 ==> key_screen_of(m, k).block_sel == m.block_sel - 1,
        up(k) && m.block_sel == 0 ==> key_screen_of(m, k).block_sel == 0,
        up(k) || down(k) ==> key_screen_of(m, k) == (AppModel {
            block_sel: key_screen_of(m, k).block_sel,
            ..m
        }),
        key_screen_of(m, Key::Char('w')) == staged_write_block(m),
        !up(k) && !down(k) && k != Key::Char('w') ==> key_screen_of(m, k) == m,
{
}

/// The console sends the bytes that its text spells. Text that spells none, or
/// does not spell bytes, is sent nowhere and reported.
pub proof fn the_console_sends_what_is_spelled(m: AppModel)
    requires
        m.log.len() < LOG_MAX,
    ensures
        ({
            let n = console_sent(m);
            match unhex_value(m.console.value) {
                Ok(p) => if p.len() > 0 {
                    n == AppModel { outbox: m.outbox.push(RequestModel::Job(JobModel::Raw(p))), ..m }
                } else {
                    n == AppModel { log: m.log.push(("nothing to send"@, true)), ..m }
                },
                Err(e) => n == AppModel { log: m.log.push((e, true)), ..m },
            }
        }),
        m.screen is Console ==> key_screen_of(m, Key::Enter) == console_sent(m),
{
}

/// Help goes away with any key, which does nothing else. A prompt goes away with
/// any key too; `y` hands its job on and any other only leaves a line.
pub proof fn help_and_prompts_swallow_the_key(m: AppModel, k: Key, c: ConfirmModel)
    requires
        m.log.len() < LOG_MAX,
    ensures
        m.help ==> key_of(m, k) == (AppModel { help: false, ..m }, true),
        !m.help && m.confirm == Some(c) && k == Key::Char('y') ==> key_of(m, k) == (
            AppModel { confirm: None, outbox: m.outbox.push(RequestModel::Job(c.job)), ..m },
            true,
        ),
        !m.help && m.confirm == Some(c) && k != Key::Char('y') ==> key_of(m, k) == (
            AppModel { confirm: None, log: m.log.push(("cancelled"@, false)), ..m },
            true,
        ),
{
}

/// While a field is edited its keys go into it. On the tag screen the ID follows
/// what is typed as far as it parses.
pub proof fn typing_goes_into_the_field(m: AppModel, k: Key)
    requires
        m.editing,
        !m.help,
        m.confirm is None,
        !(k is Enter),
        !(k is Esc),
    ensures
        ({
            let n = key_of(m, k).0;
            &&& m.screen is Tag ==> n.field == typed(m.field, k) && n.origin is Typed
                && n.block_field == m.block_field && n.console == m.console
            &&& m.screen is Tag ==> match em4100_value(typed(m.field, k).value, m.form, m.id) {
                Ok(id) => n.id == id && n.field_err is None,
                Err(e) => n.id == m.id && n.field_err == Some(e),
            }
            &&& m.screen is Blocks ==> n == AppModel { block_field: typed(m.block_field, k), ..m }
            &&& m.screen is Console ==> n == AppModel { console: typed(m.console, k), ..m }
        }),
{
}

// ---- more laws of the buffer ----

/// A capture takes the ID that lies on the pad, shows it in the form chosen,
/// and says so. A card or an empty pad is not captured, and that is said.
pub proof fn a_capture_takes_what_lies_on_the_pad(m: AppModel)
    requires
        m.log.len() < LOG_MAX,
    ensures
        m.pad matches PadModel::Lf { id, freq } ==> captured(m) == (AppModel {
            id,
            origin: Origin::Captured,
            field: input_of(em4100_text(id, m.form)),
            field_err: None,
            log: m.log.push(("captured "@ + hex_text(id), false)),
            ..m
        }),
        m.pad matches PadModel::Hf(c) ==> captured(m) == (AppModel {
            log: m.log.push((hex_text(c.uid) + " is a card UID. This screen takes IDs."@, true)),
            ..m
        }),
        m.pad is Empty ==> captured(m) == (AppModel {
            log: m.log.push(("nothing on the pad"@, true)),
            ..m
        }),
{
}

/// An untouched buffer takes the ID off the pad, and shows it.
pub proof fn an_untouched_buffer_takes_the_id(m: AppModel, id: Seq<u8>)
    requires
        m.origin is Blank,
        !m.editing,
    ensures
        seeded(m, id) == (AppModel {
            id,
            origin: Origin::Captured,
            field: input_of(em4100_text(id, m.form)),
            field_err: None,
            ..m
        }),
{
}

/// The prompt of a write asks about the ID in the buffer, says of the pad what
/// it holds, mentions the config word exactly if that is written too, and ends
/// with the keys. What waits for the yes is that write.
pub proof fn a_write_asks_about_the_buffer(m: AppModel)
    requires
        m.field_err is None,
    ensures
        staged_write_lf(m).confirm matches Some(c) && {
            &&& c.job == JobModel::WriteLf(m.id, m.write_config)
            &&& c.prompt.len() == if m.write_config {
                4int
            } else {
                3
            }
            &&& c.prompt[0] == "Write "@ + hex_text(m.id) + " to the tag on the pad?"@
            &&& m.pad is Empty ==> c.prompt[1]
                == "Nothing reads on the pad. Normal for a blank, which is silent until block 0 is set."@
            &&& m.pad matches PadModel::Lf { id, freq } ==> (id == m.id ==> c.prompt[1]
                == "It already reads as "@ + hex_text(id) + "."@)
            &&& m.pad matches PadModel::Hf(card) ==> c.prompt[1] == "A "@ + kind_of(card.sak)
                + " is on the pad. A 125 kHz write will not touch it."@
            &&& m.write_config ==> c.prompt[2] == "Block 0 will be set to "@ + hex_text(
                seq![0x00u8, 0x14, 0x80, 0x40],
            ) + "."@
            &&& c.prompt.last() == "y to go ahead. Any other key cancels."@
        },
        staged_write_lf(m) == (AppModel { confirm: staged_write_lf(m).confirm, ..m }),
{
    assert(T5577_EM4100@ =~= seq![0x00u8, 0x14, 0x80, 0x40]);
}

/// A wipe asks, warns of the tag that would be erased, and waits. A block write
/// asks about the bytes typed and the block picked.
pub proof fn a_wipe_and_a_block_ask_first(m: AppModel, data: Seq<u8>)
    ensures
        staged_wipe(m).confirm matches Some(c) && {
            &&& c.job is Wipe
            &&& c.prompt[0] == "Zero every block of the tag on the pad?"@
            &&& m.pad matches PadModel::Lf { id, freq } ==> c.prompt[1]
                == "WARNING: the tag reads as "@ + hex_text(id)
                + ". That will be erased. Stop if you cannot replace it."@
            &&& m.pad is Empty ==> c.prompt[1] == "Nothing reads on the pad."@
            &&& c.prompt.last() == "y to go ahead. Any other key cancels."@
        },
        staged_wipe(m) == (AppModel { confirm: staged_wipe(m).confirm, ..m }),
        unhex_value(m.block_field.value) == Ok::<Seq<u8>, Seq<char>>(data) && data.len() == 4 ==> (
        staged_write_block(m).confirm matches Some(c) && {
            &&& c.job == JobModel::WriteBlock(m.block_sel, data)
            &&& c.prompt[0] == "Write "@ + hex_text(data) + " to block "@ + dec_text(
                m.block_sel as nat,
            ) + "?"@
            &&& m.pad matches PadModel::Lf { id, freq } ==> c.prompt.contains(
                "The tag reads as "@ + hex_text(id) + ". Blocks 1 and 2 change that."@,
            )
            &&& c.prompt.last() == "y to go ahead. Any other key cancels."@
        }),
{
    if unhex_value(m.block_field.value) == Ok::<Seq<u8>, Seq<char>>(data) && data.len() == 4 {
        let p = block_prompt_of(m, data);
        if let PadModel::Lf { id, freq } = m.pad {
            assert(p[p.len() - 2] == "The tag reads as "@ + hex_text(id)
                + ". Blocks 1 and 2 change that."@);
        }
    }
}

/// The hint under the ID names what is next: which screen takes a card, what to
/// lay down on an empty pad, or what can be done with the tag that is there.
pub proof fn the_hint_follows_pad_and_buffer(m: AppModel)
    ensures
        m.pad is Hf ==> next_step_of(m) == "13.56 MHz card. Screen 2 reads those."@,
        m.pad is Empty && m.origin is Blank ==> next_step_of(m)
            == "set the tag you want to copy on the pad"@,
        m.pad is Empty && !(m.origin is Blank) ==> next_step_of(m) == "set a blank down. w writes."@,
        m.pad is Lf && m.origin is Blank ==> next_step_of(m) == "c captures this tag"@,
        m.pad matches PadModel::Lf { id, freq } ==> (!(m.origin is Blank) && id == m.id
            ==> next_step_of(m) == "the tag matches the buffer"@),
        m.pad matches PadModel::Lf { id, freq } ==> (!(m.origin is Blank) && id != m.id
            ==> next_step_of(m) == "w overwrites this tag with the buffer"@),
{
}

// ---- more laws of log and dump ----

/// A line goes to the end of the log. A log that would hold more than 300 lines
/// loses its oldest 150; nothing newer is lost.
pub proof fn the_log_keeps_the_newest(m: AppModel, text: Seq<char>, bad: bool)
    requires
        m.log.len() <= 300,
    ensures
        ({
            let n = logged(m, text, bad);
            &&& n.log.last() == (text, bad)
            &&& n.log.len() <= 300
            &&& m.log.len() < 300 ==> n.log == m.log.push((text, bad))
            &&& m.log.len() == 300 ==> n.log == m.log.skip(150).push((text, bad))
            &&& n == AppModel { log: n.log, ..m }
        }),
{
    if m.log.len() == 300 {
        assert(m.log.push((text, bad)).skip(150) =~= m.log.skip(150).push((text, bad)));
    }
}

/// A dump is saved under the UID of the card on the pad, in hex without blanks,
/// and holds sixteen bytes for every block of its sectors. Without a dump
/// nothing is saved.
pub proof fn a_dump_is_saved_under_the_uid(m: AppModel)
    requires
        m.log.len() < LOG_MAX,
    ensures
        m.dump.len() == 0 ==> dump_saved(m) == (AppModel {
            log: m.log.push(("no dump to save"@, true)),
            ..m
        }),
        m.dump.len() > 0 ==> dump_saved(m).outbox.len() == m.outbox.len() + 1 && (
        dump_saved(m).outbox.last() matches RequestModel::Save { path, bytes } && {
            &&& bytes == dump_bytes_of(m.dump)
            &&& m.pad matches PadModel::Hf(c) ==> path == crate::hexes::run_text(c.uid) + ".dump"@
            &&& !(m.pad is Hf) ==> path == "card"@ + ".dump"@
        }),
        m.dump.len() > 0 ==> dump_saved(m) == (AppModel { outbox: dump_saved(m).outbox, ..m }),
{
    if let PadModel::Hf(c) = m.pad {
        lemma_plain_hex(c.uid);
    }
}

proof fn lemma_plain_hex(bytes: Seq<u8>)
    ensures
        plain_hex_of(bytes) == crate::hexes::run_text(bytes),
    decreases bytes.len(),
{
    if bytes.len() > 0 {
        lemma_plain_hex(bytes.drop_last());
    }
}

/// In a saved sector every block that was read stands at sixteen times its
/// place, byte for byte. A sector without blocks is all zeroes, and has the
/// length it has on the card.
pub proof fn a_saved_block_is_the_block_read(s: SectorModel, b: int, i: int)
    requires
        s.number < 40,
        0 <= i < 16,
        forall|k: int| 0 <= k < s.blocks.len() ==> (#[trigger] s.blocks[k]).len() == 16,
        0 <= b < if s.number < 32 {
            4int
        } else {
            16
        },
    ensures
        sector_bytes(s).len() == if s.number < 32 {
            64int
        } else {
            256
        },
        sector_bytes(s)[16 * b + i] == if b < s.blocks.len() {
            s.blocks[b][i]
        } else {
            0
        },
{
    lemma_flat(s.blocks, b, i);
}

proof fn lemma_flat(blocks: Seq<Seq<u8>>, b: int, i: int)
    requires
        0 <= b,
        0 <= i < 16,
        forall|k: int| 0 <= k < blocks.len() ==> (#[trigger] blocks[k]).len() == 16,
    ensures
        flat(blocks).len() == 16 * blocks.len(),
        b < blocks.len() ==> flat(blocks)[16 * b + i] == blocks[b][i],
    decreases blocks.len(),
{
    if blocks.len() > 0 {
        let p = blocks.drop_last();
        assert forall|k: int| 0 <= k < p.len() implies (#[trigger] p[k]).len() == 16 by {
            assert(p[k] == blocks[k]);
        }
        lemma_flat(p, b, i);
        assert(blocks[blocks.len() - 1].len() == 16);
    }
}

/// What is said of a dump that was to be saved: how many bytes went where, or
/// what went wrong.
pub proof fn a_save_is_reported(m: AppModel, path: Seq<char>, bytes: nat, e: Seq<char>)
    requires
        m.log.len() < LOG_MAX,
    ensures
        save_told(m, path, bytes, None) == (AppModel {
            log: m.log.push(("wrote "@ + dec_text(bytes) + " bytes to "@ + path, false)),
            ..m
        }),
        save_told(m, path, bytes, Some(e)) == (AppModel {
            log: m.log.push((path + ": "@ + e, true)),
            ..m
        }),
{
}

/// The known commands are the commands that the rest of the library sends: the
/// text of each spells the payload of the command it is named for.
pub proof fn known_commands_are_real_commands()
    ensures
        example_of(0).1 == hex_text(crate::command::pn532_payload(seq![0x02u8])),
        example_of(1).1 == hex_text(crate::command::hf_detect_payload()),
        example_of(2).1 == hex_text(crate::command::buzzer_payload(5, 1)),
        example_of(3).1 == hex_text(seq![0xffu8, 0x00, 0x82, 0x00, 0x00]),
        example_of(4).1 == hex_text(crate::command::lf_read_payload(125_000, 0x18, 0, 0)),
{
    reveal_strlit("ff 00 00 00 02 d4 02");
    reveal_strlit("ff 00 6a 01 00 08");
    reveal_strlit("ff 00 40 50 04 01 05 01 01");
    reveal_strlit("ff 00 82 00 00");
    reveal_strlit("ff 00 65 08 18 48 e8 01 00 00 00 00 00");
    lemma_spelled(crate::command::pn532_payload(seq![0x02u8]), example_of(0).1);
    lemma_spelled(crate::command::hf_detect_payload(), example_of(1).1);
    lemma_spelled(crate::command::buzzer_payload(5, 1), example_of(2).1);
    lemma_spelled(seq![0xffu8, 0x00, 0x82, 0x00, 0x00], example_of(3).1);
    lemma_spelled(crate::command::lf_read_payload(125_000, 0x18, 0, 0), example_of(4).1);
}

proof fn lemma_spelled(bytes: Seq<u8>, s: Seq<char>)
    requires
        bytes.len() > 0,
        s.len() == 3 * bytes.len() - 1,
        forall|i: int|
            0 <= i < bytes.len() ==> s[3 * i] == crate::text::digit_char(
                #[trigger] bytes[i] as int / 16,
            ) && s[3 * i + 1] == crate::text::digit_char(bytes[i] as int % 16) && (i + 1
                < bytes.len() ==> s[3 * i + 2] == ' '),
    ensures
        s == hex_text(bytes),
{
    crate::hexes::hex_is_two_digits_a_byte(bytes, 0);
    assert forall|j: int| 0 <= j < s.len() implies s[j] == hex_text(bytes)[j] by {
        let i = j / 3;
        crate::hexes::hex_is_two_digits_a_byte(bytes, i);
        assert(bytes[i] == bytes[i]);
        assert(j == 3 * i || j == 3 * i + 1 || j == 3 * i + 2);
    }
    assert(s =~= hex_text(bytes));
}

/// The app starts on the tag screen with an empty buffer, nothing asked for and
/// the config word to be written.
pub proof fn the_app_starts_empty()
    ensures
        ({
            let m = fresh_app();
            &&& m.screen is Tag && m.pad is Empty && m.origin is Blank && m.form is Hex
            &&& m.id == seq![0u8, 0, 0, 0, 0]
            &&& m.outbox.len() == 0 && m.confirm is None && m.busy is None && !m.help && !m.editing
            &&& m.write_config && m.block_sel == 0 && m.dump.len() == 0 && m.polls == 0
            &&& m.field.value == hex_text(m.id)
            &&& m.block_field.value == "00 00 00 00"@
            &&& m.console.value == example_of(0).1
        }),
{
}

/// The keys that each screen says it has are keys that it has: every hint stands
/// for a key of that screen, and none is left out.
pub proof fn screens_name_their_keys()
    ensures
        keys_of(Screen::Tag).map_values(|h: (Seq<char>, Seq<char>)| h.0) == seq![
            "up/down"@,
            "e"@,
            "c"@,
            "r"@,
            "0"@,
            "w"@,
            "x"@,
        ],
        keys_of(Screen::Card).map_values(|h: (Seq<char>, Seq<char>)| h.0) == seq!["d"@, "s"@],
        keys_of(Screen::Blocks).map_values(|h: (Seq<char>, Seq<char>)| h.0) == seq![
            "up/down"@,
            "e"@,
            "w"@,
        ],
        keys_of(Screen::Console).map_values(|h: (Seq<char>, Seq<char>)| h.0) == seq![
            "up/down"@,
            "e"@,
            "Enter"@,
        ],
        keys_of(Screen::Tag)[2].1 == "capture"@ && keys_of(Screen::Tag)[3].1 == "read"@ && keys_of(
            Screen::Tag,
        )[5].1 == "write"@ && keys_of(Screen::Tag)[6].1 == "wipe"@,
        keys_of(Screen::Card)[0].1 == "dump"@ && keys_of(Screen::Card)[1].1 == "save"@,
        keys_of(Screen::Blocks)[2].1 == "write"@,
        keys_of(Screen::Console)[2].1 == "send"@,
{
    assert(keys_of(Screen::Tag).map_values(|h: (Seq<char>, Seq<char>)| h.0) =~= seq![
        "up/down"@,
        "e"@,
        "c"@,
        "r"@,
        "0"@,
        "w"@,
        "x"@,
    ]);
    assert(keys_of(Screen::Card).map_values(|h: (Seq<char>, Seq<char>)| h.0) =~= seq!["d"@, "s"@]);
    assert(keys_of(Screen::Blocks).map_values(|h: (Seq<char>, Seq<char>)| h.0) =~= seq![
        "up/down"@,
        "e"@,
        "w"@,
    ]);
    assert(keys_of(Screen::Console).map_values(|h: (Seq<char>, Seq<char>)| h.0) =~= seq![
        "up/down"@,
        "e"@,
        "Enter"@,
    ]);
}

/// Control-C leaves at once, whatever is on the screen. Any other key is the
/// key it is, with Control held or without.
pub proof fn control_c_leaves(m: AppModel, ctrl: bool, k: Key)
    ensures
        pressed(m, true, Key::Char('c')) == (m, false),
        !ctrl || k != Key::Char('c') ==> pressed(m, ctrl, k) == key_of(m, k),
{
}

/// The views of what is asked for keep what they carry.
pub proof fn views_keep_requests(c: Confirm, job: Job, path: String, bytes: Vec<u8>, a: App, i: int)
    requires
        0 <= i < a.outbox@.len(),
    ensures
        c@.prompt == texts(c.prompt@),
        c@.job == c.job@,
        Request::Job(job)@ == RequestModel::Job(job@),
        (Request::Save { path, bytes })@ == (RequestModel::Save { path: path@, bytes: bytes@ }),
        a@.outbox.len() == a.outbox@.len(),
        a@.outbox[i] == a.outbox@[i]@,
        a@.id == a.id@ && a@.pad == a.pad@ && a@.screen == a.screen && a@.origin == a.origin,
        a@.form == a.form && a@.field == a.field@ && a@.editing == a.editing,
        a@.write_config == a.write_config && a@.block_sel == a.block_sel && a@.help == a.help,
        a@.block_field == a.block_field@ && a@.console == a.console@ && a@.polls == a.polls,
        a.confirm matches Some(k) ==> a@.confirm == Some(k@),
        a.confirm is None ==> a@.confirm is None,
{
}

} // verus!
