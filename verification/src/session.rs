//! The terminal session model: transcript, command history, recall cursor
//! and input buffer, together with the abstract model that the contracts
//! speak of.

use vstd::prelude::*;

verus! {

/// Abstract state of a session: every field is a mathematical value.
#[verifier::ext_equal]
pub struct Model {
    /// The lines shown in the scroll area, oldest first.
    pub transcript: Seq<Seq<char>>,
    /// The current contents of the input line.
    pub input: Seq<char>,
    /// The non-empty trimmed commands submitted so far, oldest first.
    pub history: Seq<Seq<char>>,
    /// The recall position into `history`, `None` when not recalling.
    pub cursor: Option<int>,
}

impl Model {
    /// The cursor, when present, points at an entry of `history`.
    pub open spec fn wf(self) -> bool {
        match self.cursor {
            Option::Some(n) => 0 <= n < self.history.len(),
            Option::None => true,
        }
    }
}

/// The fixed prompt shown before every submitted line.
pub open spec fn prompt_text() -> Seq<char> {
    "geongupark@CV ~ % "@
}

/// The characters with the Unicode `White_Space` property, the ones that
/// trimming a command strips from its ends.
pub open spec fn is_space_char(c: char) -> bool {
    c == ' ' || c == '\t' || c == '\n' || c == '\r' || c == '\u{b}' || c == '\u{c}'
        || c == '\u{85}' || c == '\u{a0}' || c == '\u{1680}'
        || ('\u{2000}' <= c && c <= '\u{200a}')
        || c == '\u{2028}' || c == '\u{2029}' || c == '\u{202f}' || c == '\u{205f}'
        || c == '\u{3000}'
}

/// `s` without its leading whitespace.
pub open spec fn trim_start_spec(s: Seq<char>) -> Seq<char>
    decreases s.len(),
{
    if s.len() == 0 {
        s
    } else if is_space_char(s[0]) {
        trim_start_spec(s.drop_first())
    } else {
        s
    }
}

/// `s` without its trailing whitespace.
pub open spec fn trim_end_spec(s: Seq<char>) -> Seq<char>
    decreases s.len(),
{
    if s.len() == 0 {
        s
    } else if is_space_char(s.last()) {
        trim_end_spec(s.drop_last())
    } else {
        s
    }
}

/// `s` without leading and trailing whitespace.
pub open spec fn trim_spec(s: Seq<char>) -> Seq<char> {
    trim_end_spec(trim_start_spec(s))
}

/// Whether `c` is whitespace for the purposes of trimming a command.
pub fn is_space(c: char) -> (r: bool)
    ensures
        r == is_space_char(c),
{
    c == ' ' || c == '\t' || c == '\n' || c == '\r' || c == '\u{b}' || c == '\u{c}'
        || c == '\u{85}' || c == '\u{a0}' || c == '\u{1680}'
        || ('\u{2000}' <= c && c <= '\u{200a}')
        || c == '\u{2028}' || c == '\u{2029}' || c == '\u{202f}' || c == '\u{205f}'
        || c == '\u{3000}'
}

/// If everything before `i` is whitespace and `s[i]` (when it exists) is
/// not, the left trim of `s` is the suffix starting at `i`.
proof fn lemma_trim_start_at(s: Seq<char>, i: int)
    requires
        0 <= i <= s.len(),
        forall|j: int| 0 <= j < i ==> is_space_char(s[j]),
        i == s.len() || !is_space_char(s[i]),
    ensures
        trim_start_spec(s) == s.subrange(i, s.len() as int),
    decreases i,
{
    if i == 0 {
        if s.len() == 0 || !is_space_char(s[0]) {
            assert(trim_start_spec(s) =~= s.subrange(0, s.len() as int));
        }
    } else {
        assert(is_space_char(s[0]));
        lemma_trim_start_at(s.drop_first(), i - 1);
        assert(s.drop_first().subrange(i - 1, s.drop_first().len() as int)
            =~= s.subrange(i, s.len() as int));
    }
}

/// If everything from `i` on is whitespace and `s[i-1]` (when it exists)
/// is not, the right trim of `s` is the prefix up to `i`.
proof fn lemma_trim_end_at(s: Seq<char>, i: int)
    requires
        0 <= i <= s.len(),
        forall|j: int| i <= j < s.len() ==> is_space_char(s[j]),
        i == 0 || !is_space_char(s[i - 1]),
    ensures
        trim_end_spec(s) == s.subrange(0, i),
    decreases s.len() - i,
{
    if i == s.len() {
        if s.len() == 0 || !is_space_char(s.last()) {
            assert(trim_end_spec(s) =~= s.subrange(0, i));
        }
    } else {
        assert(is_space_char(s.last()));
        lemma_trim_end_at(s.drop_last(), i);
        assert(s.drop_last().subrange(0, i) =~= s.subrange(0, i));
    }
}

/// The transcript line reporting an unknown command.
pub open spec fn not_found_line(cmd: Seq<char>) -> Seq<char> {
    cmd + ": command not found"@
}

/// The transcript lines that dispatching the (already trimmed) command
/// `cmd` appends: nothing for the empty command, the canned output for a
/// known command, and a "command not found" line otherwise.
pub open spec fn dispatch_lines(cmd: Seq<char>) -> Seq<Seq<char>> {
    if cmd.len() == 0 {
        Seq::empty()
    } else if cmd == "ls"@ {
        seq![
            "Documents\tLibrary\tMusic\tPublic\tDesktop"@,
            "Downloads\tMovies\tPictures"@,
        ]
    } else if cmd == "pwd"@ {
        seq!["/Users/geongupark"@]
    } else if cmd == "about"@ {
        seq![
            "Geongu Park – System Software Engineer"@,
            "Experienced in ARM virtualization, embedded C++, and Rust WebAssembly."@,
        ]
    } else if cmd == "help"@ {
        seq!["Available commands: ls, pwd, about, help"@]
    } else {
        seq![not_found_line(cmd)]
    }
}

/// What executing the command `cmd` does to the session: the output lines
/// of its trimmed text join the transcript, that trimmed text joins the
/// history unless it is empty, and the recall cursor is reset.
pub open spec fn exec_cmd_model(m: Model, cmd: Seq<char>) -> Model {
    let t = trim_spec(cmd);
    Model {
        transcript: m.transcript + dispatch_lines(t),
        input: m.input,
        history: if t.len() > 0 {
            m.history.push(t)
        } else {
            m.history
        },
        cursor: Option::None,
    }
}

/// `s` with leading and trailing whitespace removed, as `str::trim` does.
pub fn trim(s: &str) -> (r: String)
    ensures
        r@ == trim_spec(s@),
{
    let len = s.unicode_len();
    let mut start: usize = 0;
    while start < len && is_space(s.get_char(start))
        invariant
            0 <= start <= len,
            len == s@.len(),
            forall|j: int| 0 <= j < start ==> is_space_char(s@[j]),
        decreases len - start,
    {
        start = start + 1;
    }
    let mut end: usize = len;
    while end > start && is_space(s.get_char(end - 1))
        invariant
            start <= end <= len,
            len == s@.len(),
            forall|j: int| 0 <= j < start ==> is_space_char(s@[j]),
            start == len || !is_space_char(s@[start as int]),
            forall|j: int| end <= j < len ==> is_space_char(s@[j]),
        decreases end,
    {
        end = end - 1;
    }
    proof {
        lemma_trim_start_at(s@, start as int);
        let t = s@.subrange(start as int, len as int);
        lemma_trim_end_at(t, end - start);
        assert(t.subrange(0, end - start) =~= s@.subrange(start as int, end as int));
        assert(forall|j: int| (end - start) <= j < t.len() ==> is_space_char(t[j]));
    }
    s.substring_char(start, end).to_owned()
}

/// A terminal session: a transcript of displayed lines, the line being
/// typed, the history of submitted commands, and the recall cursor.
pub struct TemplateApp {
    pub history: Vec<String>,
    pub input: String,
    pub command_history: Vec<String>,
    pub history_index: Option<usize>,
}

/// The views of the strings in `v`, in order.
pub open spec fn lines_of(v: Seq<String>) -> Seq<Seq<char>> {
    v.map_values(|s: String| s@)
}

impl View for TemplateApp {
    type V = Model;

    open spec fn view(&self) -> Model {
        Model {
            transcript: lines_of(self.history@),
            input: self.input@,
            history: lines_of(self.command_history@),
            cursor: match self.history_index {
                Option::Some(i) => Option::Some(i as int),
                Option::None => Option::None,
            },
        }
    }
}

/// What submitting the input buffer does to the session: the prompt
/// followed by the untrimmed buffer joins the transcript, the trimmed
/// buffer is dispatched as a command, and the buffer is cleared.
pub open spec fn submit_model(m: Model) -> Model {
    let echoed = Model {
        transcript: m.transcript.push(prompt_text() + m.input),
        input: m.input,
        history: m.history,
        cursor: m.cursor,
    };
    let done = exec_cmd_model(echoed, m.input);
    Model { transcript: done.transcript, input: Seq::empty(), history: done.history, cursor: done.cursor }
}

/// What one press of the Up arrow does: the cursor moves one step toward
/// older entries (entering at the newest when not yet recalling), stops at
/// the oldest, and the entry under it replaces the input buffer.
pub open spec fn recall_prev_model(m: Model) -> Model {
    match m.cursor {
        Option::Some(n) => if n > 0 {
            Model { transcript: m.transcript, input: m.history[n - 1], history: m.history, cursor: Option::Some(n - 1) }
        } else {
            Model { transcript: m.transcript, input: m.history[0], history: m.history, cursor: Option::Some(0) }
        },
        Option::None => if m.history.len() == 0 {
            m
        } else {
            Model {
                transcript: m.transcript,
                input: m.history.last(),
                history: m.history,
                cursor: Option::Some(m.history.len() - 1),
            }
        },
    }
}

/// What one press of the Down arrow does: the cursor moves one step toward
/// newer entries, and past the newest it leaves recall, clearing the input
/// buffer; it does nothing when not recalling.
pub open spec fn recall_next_model(m: Model) -> Model {
    match m.cursor {
        Option::Some(n) => if n + 1 < m.history.len() {
            Model { transcript: m.transcript, input: m.history[n + 1], history: m.history, cursor: Option::Some(n + 1) }
        } else {
            Model { transcript: m.transcript, input: Seq::empty(), history: m.history, cursor: Option::None }
        },
        Option::None => m,
    }
}

/// Whether two string slices hold the same characters.
fn str_eq(a: &str, b: &str) -> (r: bool)
    ensures
        r == (a@ == b@),
{
    let sa = a.to_owned();
    let sb = b.to_owned();
    sa == sb
}

impl TemplateApp {
    /// Dispatches the trimmed text of `cmd`, appending its output to the
    /// transcript, recording that trimmed text in the command history when
    /// it is non-empty, and resetting the recall cursor.
    pub fn execute_command(&mut self, cmd: &str)
        ensures
            final(self)@ == exec_cmd_model(old(self)@, cmd@),
            final(self)@.wf(),
    {
        let trimmed = trim(cmd);
        if !trimmed.as_str().is_empty() {
            self.command_history.push(trimmed.clone());
        }
        self.history_index = Option::None;

        if trimmed.as_str().is_empty() {
        } else if str_eq(trimmed.as_str(), "ls") {
            self.history.push("Documents\tLibrary\tMusic\tPublic\tDesktop".to_owned());
            self.history.push("Downloads\tMovies\tPictures".to_owned());
        } else if str_eq(trimmed.as_str(), "pwd") {
            self.history.push("/Users/geongupark".to_owned());
        } else if str_eq(trimmed.as_str(), "about") {
            self.history.push("Geongu Park – System Software Engineer".to_owned());
            self.history.push(
                "Experienced in ARM virtualization, embedded C++, and Rust WebAssembly.".to_owned(),
            );
        } else if str_eq(trimmed.as_str(), "help") {
            self.history.push("Available commands: ls, pwd, about, help".to_owned());
        } else {
            let mut line = trimmed.clone();
            line.append(": command not found");
            self.history.push(line);
        }
        proof {
            assert(self@ =~~= exec_cmd_model(old(self)@, cmd@));
        }
    }

    /// Submits the current input buffer: echoes it behind the prompt,
    /// dispatches its trimmed text, and clears the buffer.
    pub fn submit(&mut self)
        ensures
            final(self)@ == submit_model(old(self)@),
            final(self)@.cursor is None,
            final(self)@.wf(),
    {
        let mut line = Self::prompt().to_owned();
        line.append(self.input.as_str());
        self.history.push(line);
        let raw = self.input.clone();
        self.execute_command(raw.as_str());
        self.input = String::new();
        proof {
            assert(self@ =~~= submit_model(old(self)@));
        }
    }

    /// Steps the recall cursor one entry toward older commands and shows
    /// that entry in the input buffer; at the oldest entry it stays put.
    pub fn recall_previous(&mut self)
        requires
            old(self)@.wf(),
        ensures
            final(self)@ == recall_prev_model(old(self)@),
            final(self)@.wf(),
    {
        match self.history_index {
            Option::None => {
                if self.command_history.len() > 0 {
                    let i = self.command_history.len() - 1;
                    self.history_index = Option::Some(i);
                    self.input = self.command_history[i].clone();
                }
            },
            Option::Some(n) => {
                if n > 0 {
                    let i = n - 1;
                    self.history_index = Option::Some(i);
                    self.input = self.command_history[i].clone();
                } else {
                    self.input = self.command_history[0].clone();
                }
            },
        }
        proof {
            assert(self@ =~~= recall_prev_model(old(self)@));
        }
    }

    /// Steps the recall cursor one entry toward newer commands; past the
    /// newest it leaves recall and clears the input buffer.
    pub fn recall_next(&mut self)
        requires
            old(self)@.wf(),
        ensures
            final(self)@ == recall_next_model(old(self)@),
            final(self)@.wf(),
    {
        match self.history_index {
            Option::None => {},
            Option::Some(n) => {
                let len = self.command_history.len();
                proof {
                    assert(old(self)@.cursor == Option::Some(n as int));
                    assert(n < len);
                }
                if n + 1 < len {
                    let i = n + 1;
                    self.history_index = Option::Some(i);
                    self.input = self.command_history[i].clone();
                } else {
                    self.history_index = Option::None;
                    self.input = String::new();
                }
            },
        }
        proof {
            assert(self@ =~~= recall_next_model(old(self)@));
        }
    }

    /// A fresh session whose transcript holds exactly the given banner line.
    pub fn with_banner(banner: String) -> (s: Self)
        ensures
            s@.transcript =~~= seq![banner@],
            s@.input =~= Seq::<char>::empty(),
            s@.history =~~= Seq::<Seq<char>>::empty(),
            s@.cursor is None,
            s@.wf(),
    {
        let mut transcript: Vec<String> = Vec::new();
        transcript.push(banner);
        TemplateApp {
            history: transcript,
            input: String::new(),
            command_history: Vec::new(),
            history_index: Option::None,
        }
    }

    /// A session resumed from a saved transcript: the transcript holds
    /// exactly the given lines, and nothing has been typed, submitted or
    /// recalled in it yet.
    pub fn with_transcript(lines: Vec<String>) -> (s: Self)
        ensures
            s@.transcript =~~= lines_of(lines@),
            s@.input =~= Seq::<char>::empty(),
            s@.history =~~= Seq::<Seq<char>>::empty(),
            s@.cursor is None,
            s@.wf(),
    {
        TemplateApp {
            history: lines,
            input: String::new(),
            command_history: Vec::new(),
            history_index: Option::None,
        }
    }

    /// The fixed prompt, for callers that display it.
    pub fn prompt() -> (r: &'static str)
        ensures
            r@ == prompt_text(),
    {
        "geongupark@CV ~ % "
    }
}

/// Whether `line` begins with the fixed login-banner prefix.
pub open spec fn has_login_prefix(line: Seq<char>) -> bool {
    line.len() >= "Last login: "@.len()
        && line.subrange(0, "Last login: "@.len() as int) == "Last login: "@
}

/// Whether `line` ends with the fixed pseudo-terminal label.
pub open spec fn has_login_suffix(line: Seq<char>) -> bool {
    line.len() >= " on ttys000"@.len()
        && line.subrange(
            line.len() - " on ttys000"@.len(),
            line.len() as int,
        ) == " on ttys000"@
}

/// Relies on chrono::Local::now and DateTime::format: formatting writes the
/// literal parts of the format string verbatim and in order, so the result
/// begins with the leading literal text and ends with the trailing literal
/// text; what stands between them depends on the current local time.
#[verifier::external_body]
fn login_banner() -> (r: String)
    ensures
        has_login_prefix(r@),
        has_login_suffix(r@),
{
    chrono::Local::now().format("Last login: %a %b %e %T on ttys000").to_string()
}

impl Default for TemplateApp {
    /// A fresh session: the transcript holds one login-banner line and
    /// nothing has been typed, submitted or recalled.
    fn default() -> (s: Self)
        ensures
            s@.transcript.len() == 1,
            has_login_prefix(s@.transcript[0]),
            has_login_suffix(s@.transcript[0]),
            s@.input =~= Seq::<char>::empty(),
            s@.history =~~= Seq::<Seq<char>>::empty(),
            s@.cursor is None,
            s@.wf(),
    {
        TemplateApp::with_banner(login_banner())
    }
}

/// One submission whose raw input-buffer text is `raw`.
pub open spec fn submit_raw(m: Model, raw: Seq<char>) -> Model {
    submit_model(Model { transcript: m.transcript, input: raw, history: m.history, cursor: m.cursor })
}

/// The session after submitting each text of `raws`, oldest first.
pub open spec fn submit_seq(m: Model, raws: Seq<Seq<char>>) -> Model
    decreases raws.len(),
{
    if raws.len() == 0 {
        m
    } else {
        submit_seq(submit_raw(m, raws[0]), raws.drop_first())
    }
}

/// The trimmed forms of those texts of `raws` that do not trim to
/// nothing, in order.
pub open spec fn nonempty_trimmed(raws: Seq<Seq<char>>) -> Seq<Seq<char>>
    decreases raws.len(),
{
    if raws.len() == 0 {
        Seq::empty()
    } else {
        let t = trim_spec(raws[0]);
        (if t.len() > 0 {
            seq![t]
        } else {
            Seq::empty()
        }) + nonempty_trimmed(raws.drop_first())
    }
}

/// After any sequence of submissions, the command history holds exactly
/// what it held before followed by the non-empty trimmed submissions, in
/// submission order; from a fresh session it is exactly those.
pub proof fn lemma_history_is_submissions(m: Model, raws: Seq<Seq<char>>)
    ensures
        submit_seq(m, raws).history == m.history + nonempty_trimmed(raws),
    decreases raws.len(),
{
    if raws.len() == 0 {
        assert(m.history + nonempty_trimmed(raws) =~~= m.history);
    } else {
        let t = trim_spec(raws[0]);
        let m1 = submit_raw(m, raws[0]);
        lemma_history_is_submissions(m1, raws.drop_first());
        if t.len() > 0 {
            assert(m.history.push(t) + nonempty_trimmed(raws.drop_first())
                =~~= m.history + nonempty_trimmed(raws));
        } else {
            assert(m.history + nonempty_trimmed(raws.drop_first())
                =~~= m.history + nonempty_trimmed(raws));
        }
    }
}

/// Every submission leaves the recall cursor reset, whatever state the
/// session was in — in particular one whose input buffer was just filled
/// by recall navigation.
pub proof fn lemma_submit_resets_cursor(m: Model)
    ensures
        submit_model(m).cursor is None,
{
}

} // verus!
