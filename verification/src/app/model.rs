//! The abstract behaviour of the client: for each operation on [`AppView`], when it
//! may run without panicking and the state it leads to.

use vstd::prelude::*;
use vstd::utf8::encode_utf8;

use crate::app::state::{
    AppView, ConfigView, ConnectionState, Focus, MessageView, PublishFormView, SubscriptionView,
    topic_color, TopicColor, MAX_MESSAGES_PER_TOPIC,
};
use crate::mqtt::client::{CmdView, EventView};
use crate::mqtt::topic::receives;
use crate::text::{
    byte_len, char_index, decimal, insert_at_byte, is_boundary, is_digit, join_with, min_int,
    parse_u16_digits, remove_at_byte, trimmed,
};

verus! {

/// The single-line text fields, each with its own cursor (a byte offset).
#[derive(Debug, Clone, Copy, PartialEq, Eq, Structural)]
pub enum TextField {
    Host,
    ClientId,
    Username,
    Password,
    SubscribeTopic,
    PublishTopic,
}

/// The text field that a focus edits, if it edits one.
pub open spec fn text_field_of(f: Focus) -> Option<TextField> {
    match f {
        Focus::Host => Some(TextField::Host),
        Focus::ClientId => Some(TextField::ClientId),
        Focus::Username => Some(TextField::Username),
        Focus::Password => Some(TextField::Password),
        Focus::SubscribeTopic => Some(TextField::SubscribeTopic),
        Focus::PublishTopic => Some(TextField::PublishTopic),
        _ => None,
    }
}

/// The value of an optional parse, or `default`.
pub open spec fn or_else_u16(r: Option<u16>, default: u16) -> u16 {
    match r {
        Some(v) => v,
        None => default,
    }
}

impl AppView {
    pub open spec fn field_text(self, t: TextField) -> Seq<char> {
        match t {
            TextField::Host => self.connection_config.host,
            TextField::ClientId => self.connection_config.client_id,
            TextField::Username => self.connection_config.username,
            TextField::Password => self.connection_config.password,
            TextField::SubscribeTopic => self.new_sub_topic,
            TextField::PublishTopic => self.publish_form.topic,
        }
    }

    pub open spec fn field_cursor(self, t: TextField) -> usize {
        match t {
            TextField::Host => self.host_cursor,
            TextField::ClientId => self.client_id_cursor,
            TextField::Username => self.username_cursor,
            TextField::Password => self.password_cursor,
            TextField::SubscribeTopic => self.new_sub_topic_cursor,
            TextField::PublishTopic => self.publish_topic_cursor,
        }
    }

    pub open spec fn with_cursor(self, t: TextField, cursor: usize) -> AppView {
        match t {
            TextField::Host => AppView { host_cursor: cursor, ..self },
            TextField::ClientId => AppView { client_id_cursor: cursor, ..self },
            TextField::Username => AppView { username_cursor: cursor, ..self },
            TextField::Password => AppView { password_cursor: cursor, ..self },
            TextField::SubscribeTopic => AppView { new_sub_topic_cursor: cursor, ..self },
            TextField::PublishTopic => AppView { publish_topic_cursor: cursor, ..self },
        }
    }

    pub open spec fn with_field(self, t: TextField, text: Seq<char>, cursor: usize) -> AppView {
        let a = match t {
            TextField::Host => AppView {
                connection_config: ConfigView { host: text, ..self.connection_config },
                ..self
            },
            TextField::ClientId => AppView {
                connection_config: ConfigView { client_id: text, ..self.connection_config },
                ..self
            },
            TextField::Username => AppView {
                connection_config: ConfigView { username: text, ..self.connection_config },
                ..self
            },
            TextField::Password => AppView {
                connection_config: ConfigView { password: text, ..self.connection_config },
                ..self
            },
            TextField::SubscribeTopic => AppView { new_sub_topic: text, ..self },
            TextField::PublishTopic => AppView {
                publish_form: PublishFormView { topic: text, ..self.publish_form },
                ..self
            },
        };
        a.with_cursor(t, cursor)
    }

    /// The decimal text of the port, which the port field edits.
    pub open spec fn port_text(self) -> Seq<char> {
        decimal(self.connection_config.port as nat)
    }

    pub open spec fn with_port(self, port: u16, cursor: usize) -> AppView {
        AppView {
            connection_config: ConfigView { port: port, ..self.connection_config },
            port_cursor: cursor,
            ..self
        }
    }

    pub open spec fn current_line(self) -> Seq<char> {
        self.publish_form.payload_lines[self.publish_form.cursor_line as int]
    }

    pub open spec fn line_in_range(self) -> bool {
        self.publish_form.cursor_line < self.publish_form.payload_lines.len()
    }

    pub open spec fn with_current_line(self, line: Seq<char>, col: usize) -> AppView {
        AppView {
            publish_form: PublishFormView {
                payload_lines: self.publish_form.payload_lines.update(
                    self.publish_form.cursor_line as int,
                    line,
                ),
                cursor_col: col,
                ..self.publish_form
            },
            ..self
        }
    }

    pub open spec fn with_col(self, col: usize) -> AppView {
        AppView { publish_form: PublishFormView { cursor_col: col, ..self.publish_form }, ..self }
    }

    /// When inserting `c` at the cursor does not panic.
    pub open spec fn insert_char_ok(self, c: char) -> bool {
        match text_field_of(self.focus) {
            Some(t) => is_boundary(self.field_text(t), self.field_cursor(t) as int),
            None => match self.focus {
                Focus::Port => is_digit(c) ==> self.port_cursor <= self.port_text().len(),
                Focus::PublishPayload => self.line_in_range() && is_boundary(
                    self.current_line(),
                    self.publish_form.cursor_col as int,
                ),
                _ => true,
            },
        }
    }

    /// The state after typing `c` in the focused field.
    pub open spec fn after_insert_char(self, c: char) -> AppView {
        match text_field_of(self.focus) {
            Some(t) => {
                let cur = self.field_cursor(t);
                let text = insert_at_byte(self.field_text(t), cur as int, c);
                self.with_field(t, text, min_int(cur + 1, byte_len(text) as int) as usize)
            },
            None => match self.focus {
                Focus::Port => if is_digit(c) {
                    let text = insert_at_byte(self.port_text(), self.port_cursor as int, c);
                    self.with_port(
                        or_else_u16(parse_u16_digits(text), self.connection_config.port),
                        min_int(self.port_cursor + 1, byte_len(text) as int) as usize,
                    )
                } else {
                    self
                },
                Focus::PublishPayload => self.with_current_line(
                    insert_at_byte(self.current_line(), self.publish_form.cursor_col as int, c),
                    (self.publish_form.cursor_col + 1) as usize,
                ),
                _ => self,
            },
        }
    }
}

impl AppView {
    /// When Backspace does not panic.
    pub open spec fn backspace_ok(self) -> bool {
        match text_field_of(self.focus) {
            Some(t) => self.field_cursor(t) > 0 ==> is_boundary(
                self.field_text(t),
                self.field_cursor(t) - 1,
            ) && self.field_cursor(t) - 1 < byte_len(self.field_text(t)),
            None => match self.focus {
                Focus::PublishPayload => self.publish_form.cursor_col > 0 ==> self.line_in_range()
                    && is_boundary(self.current_line(), self.publish_form.cursor_col - 1)
                    && self.publish_form.cursor_col - 1 < byte_len(self.current_line()),
                _ => true,
            },
        }
    }

    /// The state after Backspace: the character before the cursor goes.
    pub open spec fn after_backspace(self) -> AppView {
        match text_field_of(self.focus) {
            Some(t) => {
                let cur = self.field_cursor(t);
                if cur > 0 {
                    self.with_field(
                        t,
                        remove_at_byte(self.field_text(t), cur - 1),
                        (cur - 1) as usize,
                    )
                } else {
                    self
                }
            },
            None => match self.focus {
                Focus::Port => {
                    let text = self.port_text();
                    if self.port_cursor > 0 && text.len() > 0 && self.port_cursor <= byte_len(text) {
                        self.with_port(
                            or_else_u16(
                                parse_u16_digits(remove_at_byte(text, self.port_cursor - 1)),
                                0,
                            ),
                            (self.port_cursor - 1) as usize,
                        )
                    } else {
                        self
                    }
                },
                Focus::PublishPayload => {
                    let col = self.publish_form.cursor_col;
                    if col > 0 {
                        self.with_current_line(
                            remove_at_byte(self.current_line(), col - 1),
                            (col - 1) as usize,
                        )
                    } else {
                        self
                    }
                },
                _ => self,
            },
        }
    }

    /// When Delete does not panic.
    pub open spec fn delete_ok(self) -> bool {
        match text_field_of(self.focus) {
            Some(t) => self.field_cursor(t) < byte_len(self.field_text(t)) ==> is_boundary(
                self.field_text(t),
                self.field_cursor(t) as int,
            ),
            None => match self.focus {
                Focus::PublishPayload => self.line_in_range() && (self.publish_form.cursor_col
                    < byte_len(self.current_line()) ==> is_boundary(
                    self.current_line(),
                    self.publish_form.cursor_col as int,
                )),
                _ => true,
            },
        }
    }

    /// The state after Delete: the character at the cursor goes.
    pub open spec fn after_delete(self) -> AppView {
        match text_field_of(self.focus) {
            Some(t) => {
                let cur = self.field_cursor(t);
                if cur < byte_len(self.field_text(t)) {
                    self.with_field(t, remove_at_byte(self.field_text(t), cur as int), cur)
                } else {
                    self
                }
            },
            None => match self.focus {
                Focus::Port => {
                    let text = self.port_text();
                    if self.port_cursor < byte_len(text) {
                        self.with_port(
                            or_else_u16(
                                parse_u16_digits(remove_at_byte(text, self.port_cursor as int)),
                                0,
                            ),
                            self.port_cursor,
                        )
                    } else {
                        self
                    }
                },
                Focus::PublishPayload => {
                    let col = self.publish_form.cursor_col;
                    if col < byte_len(self.current_line()) {
                        self.with_current_line(remove_at_byte(self.current_line(), col as int), col)
                    } else {
                        self
                    }
                },
                _ => self,
            },
        }
    }

    /// The state after the Left key.
    pub open spec fn after_cursor_left(self) -> AppView {
        match text_field_of(self.focus) {
            Some(t) => if self.field_cursor(t) > 0 {
                self.with_cursor(t, (self.field_cursor(t) - 1) as usize)
            } else {
                self
            },
            None => match self.focus {
                Focus::Port => if self.port_cursor > 0 {
                    AppView { port_cursor: (self.port_cursor - 1) as usize, ..self }
                } else {
                    self
                },
                Focus::PublishPayload => if self.publish_form.cursor_col > 0 {
                    self.with_col((self.publish_form.cursor_col - 1) as usize)
                } else {
                    self
                },
                _ => self,
            },
        }
    }

    /// When the Right key does not panic.
    pub open spec fn cursor_right_ok(self) -> bool {
        match text_field_of(self.focus) {
            Some(t) => self.field_cursor(t) < usize::MAX,
            None => match self.focus {
                Focus::Port => self.port_cursor < usize::MAX,
                Focus::PublishPayload => self.line_in_range() && self.publish_form.cursor_col
                    < usize::MAX,
                _ => true,
            },
        }
    }

    /// The state after the Right key.
    pub open spec fn after_cursor_right(self) -> AppView {
        match text_field_of(self.focus) {
            Some(t) => self.with_cursor(
                t,
                min_int(self.field_cursor(t) + 1, byte_len(self.field_text(t)) as int) as usize,
            ),
            None => match self.focus {
                Focus::Port => AppView {
                    port_cursor: min_int(
                        self.port_cursor + 1,
                        byte_len(self.port_text()) as int,
                    ) as usize,
                    ..self
                },
                Focus::PublishPayload => self.with_col(
                    min_int(
                        self.publish_form.cursor_col + 1,
                        byte_len(self.current_line()) as int,
                    ) as usize,
                ),
                _ => self,
            },
        }
    }

    /// When the Up key does not panic.
    pub open spec fn cursor_up_ok(self) -> bool {
        self.focus == Focus::PublishPayload && self.publish_form.cursor_line > 0 ==> self.publish_form.cursor_line
            - 1 < self.publish_form.payload_lines.len()
    }

    /// The state after the Up key in the payload editor.
    pub open spec fn after_cursor_up(self) -> AppView {
        if self.focus == Focus::PublishPayload && self.publish_form.cursor_line > 0 {
            let line = (self.publish_form.cursor_line - 1) as usize;
            AppView {
                publish_form: PublishFormView {
                    cursor_line: line,
                    cursor_col: min_int(
                        self.publish_form.cursor_col as int,
                        byte_len(self.publish_form.payload_lines[line as int]) as int,
                    ) as usize,
                    ..self.publish_form
                },
                ..self
            }
        } else {
            self
        }
    }

    /// When the Down key does not panic.
    pub open spec fn cursor_down_ok(self) -> bool {
        self.focus == Focus::PublishPayload ==> self.publish_form.cursor_line < usize::MAX
    }

    /// The state after the Down key in the payload editor.
    pub open spec fn after_cursor_down(self) -> AppView {
        if self.focus == Focus::PublishPayload && self.publish_form.cursor_line + 1
            < self.publish_form.payload_lines.len() {
            let line = (self.publish_form.cursor_line + 1) as usize;
            AppView {
                publish_form: PublishFormView {
                    cursor_line: line,
                    cursor_col: min_int(
                        self.publish_form.cursor_col as int,
                        byte_len(self.publish_form.payload_lines[line as int]) as int,
                    ) as usize,
                    ..self.publish_form
                },
                ..self
            }
        } else {
            self
        }
    }

    /// The state after Home: the cursor goes to the start of the field.
    pub open spec fn after_home(self) -> AppView {
        match text_field_of(self.focus) {
            Some(t) => self.with_cursor(t, 0),
            None => match self.focus {
                Focus::Port => AppView { port_cursor: 0, ..self },
                Focus::PublishPayload => self.with_col(0),
                _ => self,
            },
        }
    }

    /// When End does not panic.
    pub open spec fn end_ok(self) -> bool {
        self.focus == Focus::PublishPayload ==> self.line_in_range()
    }

    /// The state after End: the cursor goes to the end of the field.
    pub open spec fn after_end(self) -> AppView {
        match text_field_of(self.focus) {
            Some(t) => self.with_cursor(t, byte_len(self.field_text(t)) as usize),
            None => match self.focus {
                Focus::Port => AppView { port_cursor: byte_len(self.port_text()) as usize, ..self },
                Focus::PublishPayload => self.with_col(byte_len(self.current_line()) as usize),
                _ => self,
            },
        }
    }

    /// When Enter does not panic.
    pub open spec fn newline_ok(self) -> bool {
        self.focus == Focus::PublishPayload ==> self.line_in_range() && is_boundary(
            self.current_line(),
            self.publish_form.cursor_col as int,
        )
    }

    /// The state after Enter: in the payload editor the line splits at the cursor
    /// and the cursor goes to the start of the new line.
    pub open spec fn after_newline(self) -> AppView {
        if self.focus == Focus::PublishPayload {
            let line = self.publish_form.cursor_line;
            let text = self.current_line();
            let k = char_index(text, self.publish_form.cursor_col as int);
            AppView {
                publish_form: PublishFormView {
                    payload_lines: self.publish_form.payload_lines.update(
                        line as int,
                        text.take(k),
                    ).insert(line + 1, text.skip(k)),
                    cursor_line: (line + 1) as usize,
                    cursor_col: 0,
                    ..self.publish_form
                },
                ..self
            }
        } else {
            self
        }
    }
}

/// The index of the first subscription whose filter is exactly `topic`, if there is one.
pub open spec fn topic_index(subs: Seq<SubscriptionView>, topic: Seq<char>) -> Option<int>
    decreases subs.len(),
{
    if subs.len() == 0 {
        None
    } else {
        match topic_index(subs.drop_last(), topic) {
            Some(i) => Some(i),
            None => if subs.last().topic == topic {
                Some(subs.len() - 1)
            } else {
                None
            },
        }
    }
}

/// Whether a listed topic has colour `c`.
pub open spec fn color_used(subs: Seq<SubscriptionView>, c: TopicColor) -> bool {
    exists|i: int| 0 <= i < subs.len() && subs[i].color == c
}

/// The first palette entry that no listed topic has, searching from entry
/// `start + k` onwards and wrapping round after the last entry, until twelve
/// entries from `start` have been tried.
pub open spec fn first_free_color_from(subs: Seq<SubscriptionView>, start: nat, k: nat) -> Option<
    TopicColor,
>
    decreases 12 - k,
{
    if k >= 12 {
        None
    } else if !color_used(subs, topic_color(start + k)) {
        Some(topic_color(start + k))
    } else {
        first_free_color_from(subs, start, k + 1)
    }
}

/// The colour of a newly subscribed topic: the palette entry at the number of
/// listed topics, round robin, when no listed topic has it; otherwise the next
/// entry after it (wrapping round) that no listed topic has; when all twelve are
/// taken, the round-robin entry all the same.
pub open spec fn new_topic_color(subs: Seq<SubscriptionView>) -> TopicColor {
    match first_free_color_from(subs, subs.len() % 12, 0) {
        Some(c) => c,
        None => topic_color(subs.len()),
    }
}

/// The palette in order, from entry `start` round.
pub open spec fn palette_from(start: nat) -> Seq<TopicColor> {
    Seq::new(12, |k: int| topic_color(start + k as nat))
}

pub proof fn lemma_first_free_color_from(subs: Seq<SubscriptionView>, start: nat, k: nat)
    ensures
        match first_free_color_from(subs, start, k) {
            Some(c) => !color_used(subs, c),
            None => forall|j: nat|
                k <= j < 12 ==> color_used(subs, #[trigger] topic_color(start + j)),
        },
    decreases 12 - k,
{
    if k < 12 && color_used(subs, topic_color(start + k)) {
        lemma_first_free_color_from(subs, start, k + 1);
        if first_free_color_from(subs, start, k) is None {
            assert forall|j: nat| k <= j < 12 implies color_used(
                subs,
                #[trigger] topic_color(start + j),
            ) by {
                if j > k {
                    assert(color_used(subs, topic_color(start + j)));
                }
            }
        }
    }
}

proof fn lemma_palette_from_distinct(start: nat)
    ensures
        palette_from(start).no_duplicates(),
{
    assert forall|i: int, j: int|
        0 <= i < 12 && 0 <= j < 12 && i != j implies palette_from(start)[i] != palette_from(
        start,
    )[j] by {
        assert((start + i) % 12 != (start + j) % 12);
    }
}

/// While fewer than twelve topics are listed, a new topic gets a colour that no
/// listed topic has, and that colour is the round-robin entry whenever that entry
/// is free.
pub proof fn lemma_new_topic_color_unused(subs: Seq<SubscriptionView>)
    requires
        subs.len() < 12,
    ensures
        !color_used(subs, new_topic_color(subs)),
        !color_used(subs, topic_color(subs.len())) ==> new_topic_color(subs) == topic_color(
            subs.len(),
        ),
{
    let start = subs.len() % 12;
    assert(topic_color(start + 0) == topic_color(subs.len()));
    lemma_first_free_color_from(subs, start, 0);
    if first_free_color_from(subs, start, 0) is None {
        let colors = subs.map_values(|s: SubscriptionView| s.color);
        let pal = palette_from(start);
        colors.lemma_cardinality_of_set();
        lemma_palette_from_distinct(start);
        pal.unique_seq_to_set();
        assert forall|c: TopicColor| pal.to_set().contains(c) implies colors.to_set().contains(
            c,
        ) by {
            let k = choose|k: int| 0 <= k < 12 && pal[k] == c;
            assert(color_used(subs, topic_color(start + k as nat)));
            let i = choose|i: int| 0 <= i < subs.len() && subs[i].color == c;
            assert(colors[i] == c);
        }
        vstd::seq_lib::seq_to_set_is_finite(colors);
        vstd::set_lib::lemma_len_subset(pal.to_set(), colors.to_set());
    }
}

/// `msgs` with `m` appended; when the topic already holds the most messages it
/// keeps, the oldest leaves first.
pub open spec fn push_capped(msgs: Seq<MessageView>, m: MessageView) -> Seq<MessageView> {
    if msgs.len() >= MAX_MESSAGES_PER_TOPIC {
        msgs.drop_first().push(m)
    } else {
        msgs.push(m)
    }
}

/// The subscriptions after message `m` arrives on `topic`: each subscription that
/// receives the topic (its filter is the topic, or takes it in) gets the message,
/// the others are unchanged.
pub open spec fn deliver(subs: Seq<SubscriptionView>, topic: Seq<char>, m: MessageView) -> Seq<
    SubscriptionView,
> {
    Seq::new(
        subs.len(),
        |i: int|
            if receives(subs[i].topic, topic) {
                SubscriptionView { messages: push_capped(subs[i].messages, m), ..subs[i] }
            } else {
                subs[i]
            },
    )
}

/// The text that says a QoS choice about `topic`, such as `'a/b' (QoS 1)`.
pub open spec fn quoted_topic_qos(topic: Seq<char>, qos: u8) -> Seq<char> {
    topic + "' (QoS "@ + decimal(qos as nat) + ")"@
}

impl AppView {
    pub open spec fn with_status(self, msg: Seq<char>) -> AppView {
        AppView { status_message: msg, ..self }
    }

    /// `cmd` added to the commands waiting for the session task, while the channel is open.
    pub open spec fn queued(self, cmd: CmdView) -> AppView {
        match self.cmd_queue {
            Some(q) => AppView { cmd_queue: Some(q.push(cmd)), ..self },
            None => self,
        }
    }

    pub open spec fn channel_open(self) -> bool {
        self.cmd_queue is Some
    }

    pub open spec fn after_connect(self) -> AppView {
        let host = trimmed(self.connection_config.host);
        if self.connection_state == ConnectionState::Connected {
            self.with_status("Already connected"@)
        } else if host.len() == 0 {
            self.with_status("Host is required"@)
        } else if self.channel_open() {
            AppView {
                connection_state: ConnectionState::Connecting,
                status_message: "Connecting to "@ + host + ":"@ + decimal(
                    self.connection_config.port as nat,
                ) + "..."@,
                ..self
            }.queued(CmdView::Connect(self.connection_config))
        } else {
            self
        }
    }

    pub open spec fn after_disconnect(self) -> AppView {
        self.queued(CmdView::Disconnect)
    }

    pub open spec fn after_subscribe(self) -> AppView {
        let topic = trimmed(self.new_sub_topic);
        let qos = self.new_sub_qos;
        if topic.len() == 0 {
            self.with_status("Topic is required for subscription"@)
        } else if self.connection_state != ConnectionState::Connected {
            self.with_status("Not connected to a broker"@)
        } else {
            let a = self.queued(CmdView::Subscribe { topic: topic, qos: qos });
            match topic_index(self.subscriptions, topic) {
                None => {
                    let subs = self.subscriptions.push(
                        SubscriptionView {
                            topic: topic,
                            qos: qos,
                            color: new_topic_color(self.subscriptions),
                            messages: Seq::empty(),
                            scroll_offset: 0,
                        },
                    );
                    AppView {
                        subscriptions: subs,
                        focused_subscription: (subs.len() - 1) as usize,
                        status_message: "Subscribed to '"@ + quoted_topic_qos(topic, qos),
                        ..a
                    }
                },
                Some(i) => AppView {
                    subscriptions: self.subscriptions.update(
                        i,
                        SubscriptionView { qos: qos, ..self.subscriptions[i] },
                    ),
                    status_message: "Updated subscription '"@ + quoted_topic_qos(topic, qos),
                    ..a
                },
            }
        }
    }

    pub open spec fn after_unsubscribe(self) -> AppView {
        let n = self.subscriptions.len();
        if n == 0 {
            self
        } else {
            let idx = min_int(self.focused_subscription as int, n - 1);
            let topic = self.subscriptions[idx].topic;
            let a = if self.connection_state == ConnectionState::Connected {
                self.queued(CmdView::Unsubscribe { topic: topic })
            } else {
                self
            };
            let subs = self.subscriptions.remove(idx);
            let focused = if subs.len() == 0 {
                0
            } else if self.focused_subscription >= subs.len() {
                (subs.len() - 1) as usize
            } else {
                self.focused_subscription
            };
            AppView {
                subscriptions: subs,
                focused_subscription: focused,
                status_message: "Unsubscribed from '"@ + topic + "'"@,
                ..a
            }
        }
    }

    /// The payload text: the editor lines joined by line breaks.
    pub open spec fn payload_text(self) -> Seq<char> {
        join_with(self.publish_form.payload_lines, "\n"@)
    }

    /// Publishing, given whether the payload text parses as JSON.
    pub open spec fn after_publish(self, payload_is_json: bool) -> AppView {
        let topic = trimmed(self.publish_form.topic);
        let payload = self.payload_text();
        let qos = self.publish_form.qos;
        if topic.len() == 0 {
            self.with_status("Topic is required for publishing"@)
        } else if self.publish_form.is_json && !payload_is_json {
            self.with_status("Invalid JSON payload"@)
        } else if self.connection_state != ConnectionState::Connected {
            self.with_status("Not connected to a broker"@)
        } else if self.channel_open() {
            AppView {
                status_message: "Published to '"@ + quoted_topic_qos(topic, qos),
                ..self
            }.queued(
                CmdView::Publish {
                    topic: topic,
                    qos: qos,
                    retain: self.publish_form.retain,
                    payload: encode_utf8(payload),
                },
            )
        } else {
            self
        }
    }

    /// The state after an event of the session task; `now` is the arrival time
    /// given to a received message.
    pub open spec fn after_event(self, e: EventView, now: i64) -> AppView {
        match e {
            EventView::Connected => AppView {
                connection_state: ConnectionState::Connected,
                status_message: "Connected"@,
                ..self
            },
            EventView::Disconnected => AppView {
                connection_state: ConnectionState::Disconnected,
                status_message: "Disconnected"@,
                ..self
            },
            EventView::MessageReceived { topic, payload, retain } => AppView {
                subscriptions: deliver(
                    self.subscriptions,
                    topic,
                    MessageView { payload: payload, retain: retain, timestamp: now },
                ),
                ..self
            },
            EventView::Error(msg) => AppView {
                connection_state: ConnectionState::Disconnected,
                status_message: "Error: "@ + msg,
                ..self
            },
        }
    }
}

pub proof fn lemma_topic_index_valid(subs: Seq<SubscriptionView>, topic: Seq<char>)
    ensures
        topic_index(subs, topic) matches Some(i) ==> 0 <= i < subs.len() && subs[i].topic == topic
            && forall|j: int| 0 <= j < i ==> subs[j].topic != topic,
        topic_index(subs, topic) is None ==> forall|j: int|
            0 <= j < subs.len() ==> subs[j].topic != topic,
    decreases subs.len(),
{
    if subs.len() > 0 {
        let init = subs.drop_last();
        lemma_topic_index_valid(init, topic);
        assert forall|j: int| 0 <= j < init.len() implies init[j] == subs[j] by {}
        match topic_index(init, topic) {
            Some(i) => {
                assert(topic_index(subs, topic) == Some(i));
            },
            None => {},
        }
    }
}

pub proof fn lemma_topic_index_prefix(subs: Seq<SubscriptionView>, topic: Seq<char>, k: int)
    requires
        0 < k <= subs.len(),
        subs[k - 1].topic == topic,
        topic_index(subs.take(k - 1), topic) is None,
    ensures
        topic_index(subs, topic) == Some(k - 1),
    decreases subs.len() - k,
{
    assert(subs.take(k).drop_last() =~= subs.take(k - 1));
    if k < subs.len() {
        assert(subs.take(k + 1).drop_last() =~= subs.take(k));
        lemma_topic_index_extend(subs, topic, k);
    } else {
        assert(subs.take(k) =~= subs);
    }
}

/// A first occurrence in a prefix stays the first occurrence in the whole sequence.
pub proof fn lemma_topic_index_extend(subs: Seq<SubscriptionView>, topic: Seq<char>, k: int)
    requires
        0 < k <= subs.len(),
        topic_index(subs.take(k), topic) is Some,
    ensures
        topic_index(subs, topic) == topic_index(subs.take(k), topic),
    decreases subs.len() - k,
{
    if k < subs.len() {
        assert(subs.take(k + 1).drop_last() =~= subs.take(k));
        lemma_topic_index_extend(subs, topic, k + 1);
    } else {
        assert(subs.take(k) =~= subs);
    }
}

pub open spec fn empty_text() -> Seq<char> {
    Seq::empty()
}

/// The state of a freshly started client whose identifier is `client_id`.
pub open spec fn initial_view(client_id: Seq<char>) -> AppView {
    AppView {
        connection_config: ConfigView {
            host: empty_text(),
            port: 1883,
            use_websockets: false,
            client_id: client_id,
            username: empty_text(),
            password: empty_text(),
            clean_session: true,
            keep_alive: 60,
        },
        connection_state: ConnectionState::Disconnected,
        subscriptions: Seq::empty(),
        focused_subscription: 0,
        publish_form: PublishFormView {
            topic: empty_text(),
            qos: 0,
            retain: false,
            is_json: false,
            payload_lines: seq![empty_text()],
            cursor_line: 0,
            cursor_col: 0,
        },
        focus: Focus::Host,
        status_message: "Disconnected | ^C: Connect  ^Q: Quit"@,
        should_quit: false,
        cursor_visible: true,
        blink_tick: 0,
        cmd_queue: Some(Seq::empty()),
        new_sub_topic: empty_text(),
        new_sub_topic_cursor: 0,
        new_sub_qos: 0,
        host_cursor: 0,
        port_cursor: 0,
        client_id_cursor: (if byte_len(client_id) > 0 {
            byte_len(client_id) - 1
        } else {
            0
        }) as usize,
        username_cursor: 0,
        password_cursor: 0,
        publish_topic_cursor: 0,
        publish_qos_idx: 0,
    }
}

/// The field that follows `f` in the navigation order.
pub open spec fn next_focus_of(f: Focus) -> Focus {
    match f {
        Focus::Host => Focus::Port,
        Focus::Port => Focus::ClientId,
        Focus::ClientId => Focus::Username,
        Focus::Username => Focus::Password,
        Focus::Password => Focus::SubscribeTopic,
        Focus::SubscribeTopic => Focus::SubscribeQos,
        Focus::SubscribeQos => Focus::PublishTopic,
        Focus::PublishTopic => Focus::PublishQos,
        Focus::PublishQos => Focus::PublishPayload,
        Focus::PublishPayload => Focus::Host,
    }
}

/// The field that precedes `f` in the navigation order.
pub open spec fn prev_focus_of(f: Focus) -> Focus {
    match f {
        Focus::Host => Focus::PublishPayload,
        Focus::Port => Focus::Host,
        Focus::ClientId => Focus::Port,
        Focus::Username => Focus::ClientId,
        Focus::Password => Focus::Username,
        Focus::SubscribeTopic => Focus::Password,
        Focus::SubscribeQos => Focus::SubscribeTopic,
        Focus::PublishTopic => Focus::SubscribeQos,
        Focus::PublishQos => Focus::PublishTopic,
        Focus::PublishPayload => Focus::PublishQos,
    }
}

} // verus!
