//! The tree itself: the window manager at the root, its screens, their
//! tags, and the clients on each tag.
//!
//! A node knows its own index and its parent, nothing else. Whatever is
//! asked of it takes one round trip, in two steps: the node hands out the
//! request to send (`..._request`), and, given the reply, the answer
//! (`get_...`). Sending is the caller's part, so the reply comes in as the
//! channel gave it: the text, or the channel's own error.

use vstd::prelude::*;
use vstd::string::*;
use crate::channel::{evaluation_request, request_text};
use crate::decode::{decode_outcome, decode_text, decode_unsigned, ParseFault};
use crate::expression::{
    client_class_expression, client_class_text, client_count_expression, client_count_text,
    client_name_expression, client_name_text, client_window_expression, client_window_text,
    remote_index, screen_count_expression, screen_count_text, tag_count_expression,
    tag_count_text, tag_name_expression, tag_name_text,
};

verus! {

/// Why a query gave no value. `E` is the channel's own error.
#[derive(Debug, PartialEq, Eq)]
pub enum EvalError<E> {
    /// The reply came, but is not the number that was asked for.
    CountParseError(ParseFault),
    /// No reply came: the channel failed.
    DBusConnectionError(E),
}

/// The window manager: the root of the tree, and the owner of the channel
/// `C` that reaches it.
#[derive(Debug)]
pub struct Awesome<C> {
    pub channel: C,
}

/// A screen, at position `index` among the screens, counted from zero.
#[derive(Debug)]
pub struct AwesomeScreen<'a, C> {
    pub index: u32,
    pub instance: &'a Awesome<C>,
}

/// A tag, at position `index` among the tags of its screen, counted from
/// zero.
#[derive(Debug)]
pub struct AwesomeTag<'a, C> {
    pub index: u32,
    pub screen: &'a AwesomeScreen<'a, C>,
}

/// A client, with the index under which its tag lists it, counted from one.
#[derive(Debug)]
pub struct AwesomeClient<'a, C> {
    pub index: u32,
    pub tag: &'a AwesomeTag<'a, C>,
}

/// What the reply to a request for a number amounts to.
pub open spec fn count_outcome<E>(reply: Result<String, E>) -> Result<u32, EvalError<E>> {
    match reply {
        Ok(text) => match decode_outcome(text@) {
            Ok(count) => Ok(count),
            Err(fault) => Err(EvalError::CountParseError(fault)),
        },
        Err(failure) => Err(EvalError::DBusConnectionError(failure)),
    }
}

/// What the reply to a request for a text amounts to.
pub open spec fn text_outcome<E>(reply: Result<String, E>) -> Result<String, EvalError<E>> {
    match reply {
        Ok(text) => Ok(text),
        Err(failure) => Err(EvalError::DBusConnectionError(failure)),
    }
}

/// Reads a reply as a number.
fn count_from_reply<E>(reply: Result<String, E>) -> (r: Result<u32, EvalError<E>>)
    ensures
        r == count_outcome(reply),
{
    match reply {
        Ok(text) => match decode_unsigned(text.as_str()) {
            Ok(count) => Ok(count),
            Err(fault) => Err(EvalError::CountParseError(fault)),
        },
        Err(failure) => Err(EvalError::DBusConnectionError(failure)),
    }
}

/// Reads a reply as a text.
fn text_from_reply<E>(reply: Result<String, E>) -> (r: Result<String, EvalError<E>>)
    ensures
        r == text_outcome(reply),
{
    match reply {
        Ok(text) => match decode_text(text) {
            Ok(text) => Ok(text),
            Err(fault) => Err(EvalError::CountParseError(fault)),
        },
        Err(failure) => Err(EvalError::DBusConnectionError(failure)),
    }
}

/// The two kinds of failure never pass for one another: a failure of the
/// channel comes out as the channel's own error, unchanged, and a reply that
/// did arrive never comes out as one, whatever it holds.
pub proof fn lemma_failures_stay_apart<E>(reply: Result<String, E>)
    ensures
        reply matches Err(failure) ==> count_outcome(reply) == Err::<u32, EvalError<E>>(
            EvalError::DBusConnectionError(failure),
        ) && text_outcome(reply) == Err::<String, EvalError<E>>(
            EvalError::DBusConnectionError(failure),
        ),
        reply matches Ok(text) ==> text_outcome(reply) == Ok::<String, EvalError<E>>(text) && (
        match decode_outcome(text@) {
            Ok(count) => count_outcome(reply) == Ok::<u32, EvalError<E>>(count),
            Err(fault) => count_outcome(reply) == Err::<u32, EvalError<E>>(
                EvalError::CountParseError(fault),
            ),
        }),
{
}

impl<E> EvalError<E> {
    /// The text that describes this error.
    pub open spec fn message_text(&self) -> Seq<char> {
        match self {
            EvalError::CountParseError(_) => "Failed to parse screen count"@,
            EvalError::DBusConnectionError(_) => "DBUS connection failure"@,
        }
    }

    /// A description of this error for people to read.
    pub fn message(&self) -> (text: String)
        ensures
            text@ == self.message_text(),
    {
        match self {
            EvalError::CountParseError(_) => String::from_str("Failed to parse screen count"),
            EvalError::DBusConnectionError(_) => String::from_str("DBUS connection failure"),
        }
    }
}

impl<C> Awesome<C> {
    /// The root of the tree behind `channel`.
    pub fn new(channel: C) -> (root: Self)
        ensures
            root.channel == channel,
    {
        Awesome { channel }
    }

    /// The request for the number of screens.
    pub fn screen_count_request(&self) -> (request: String)
        ensures
            request@ == request_text(screen_count_text()),
    {
        let expression = screen_count_expression();
        evaluation_request(expression.as_str())
    }

    /// The number of screens, from the reply to
    /// [`screen_count_request`](Self::screen_count_request).
    pub fn get_screen_count<E>(&self, reply: Result<String, E>) -> (r: Result<u32, EvalError<E>>)
        ensures
            r == count_outcome(reply),
    {
        count_from_reply(reply)
    }

    /// The screens, from the reply to
    /// [`screen_count_request`](Self::screen_count_request): as many as the
    /// reply says, at the positions from zero up, in that order.
    pub fn get_screens<E>(&self, reply: Result<String, E>) -> (r: Result<
        Vec<AwesomeScreen<'_, C>>,
        EvalError<E>,
    >)
        ensures
            match count_outcome(reply) {
                Ok(count) => r matches Ok(screens) && screens@.len() == count && forall|i: int|
                    0 <= i < count ==> #[trigger] screens@[i] == (AwesomeScreen {
                        index: i as u32,
                        instance: self,
                    }),
                Err(error) => r matches Err(e) && e == error,
            },
            r matches Ok(screens) ==> forall|i: int, j: int|
                0 <= i < j < screens@.len() ==> screens@[i].index < screens@[j].index,
    {
        let count = match count_from_reply(reply) {
            Ok(count) => count,
            Err(error) => {
                return Err(error);
            },
        };
        let mut screens: Vec<AwesomeScreen<'_, C>> = Vec::new();
        for i in 0..count
            invariant
                screens@.len() == i,
                forall|j: int|
                    0 <= j < i ==> #[trigger] screens@[j] == (AwesomeScreen {
                        index: j as u32,
                        instance: self,
                    }),
        {
            screens.push(AwesomeScreen { index: i, instance: self });
        }
        Ok(screens)
    }
}

impl<'a, C> AwesomeScreen<'a, C> {
    /// The request for the number of tags of this screen.
    pub fn tag_count_request(&self) -> (request: String)
        ensures
            request@ == request_text(tag_count_text(remote_index(self.index))),
    {
        let expression = tag_count_expression(self.index);
        evaluation_request(expression.as_str())
    }

    /// The number of tags of this screen, from the reply to
    /// [`tag_count_request`](Self::tag_count_request).
    pub fn get_tag_count<E>(&self, reply: Result<String, E>) -> (r: Result<u32, EvalError<E>>)
        ensures
            r == count_outcome(reply),
    {
        count_from_reply(reply)
    }

    /// The tags of this screen, from the reply to
    /// [`tag_count_request`](Self::tag_count_request): as many as the reply
    /// says, at the positions from zero up, in that order.
    pub fn get_tags<E>(&self, reply: Result<String, E>) -> (r: Result<
        Vec<AwesomeTag<'_, C>>,
        EvalError<E>,
    >)
        ensures
            match count_outcome(reply) {
                Ok(count) => r matches Ok(tags) && tags@.len() == count && forall|i: int|
                    0 <= i < count ==> #[trigger] tags@[i] == (AwesomeTag {
                        index: i as u32,
                        screen: self,
                    }),
                Err(error) => r matches Err(e) && e == error,
            },
            r matches Ok(tags) ==> forall|i: int, j: int|
                0 <= i < j < tags@.len() ==> tags@[i].index < tags@[j].index,
    {
        let count = match count_from_reply(reply) {
            Ok(count) => count,
            Err(error) => {
                return Err(error);
            },
        };
        let mut tags: Vec<AwesomeTag<'_, C>> = Vec::new();
        for i in 0..count
            invariant
                tags@.len() == i,
                forall|j: int|
                    0 <= j < i ==> #[trigger] tags@[j] == (AwesomeTag {
                        index: j as u32,
                        screen: self,
                    }),
        {
            tags.push(AwesomeTag { index: i, screen: self });
        }
        Ok(tags)
    }
}

impl<'a, C> AwesomeTag<'a, C> {
    /// The request for the name of this tag.
    pub fn name_request(&self) -> (request: String)
        ensures
            request@ == request_text(
                tag_name_text(remote_index(self.screen.index), remote_index(self.index)),
            ),
    {
        let expression = tag_name_expression(self.screen.index, self.index);
        evaluation_request(expression.as_str())
    }

    /// The name of this tag, from the reply to
    /// [`name_request`](Self::name_request).
    pub fn get_name<E>(&self, reply: Result<String, E>) -> (r: Result<String, EvalError<E>>)
        ensures
            r == text_outcome(reply),
    {
        text_from_reply(reply)
    }

    /// The request for the number of clients on this tag.
    pub fn client_count_request(&self) -> (request: String)
        ensures
            request@ == request_text(
                client_count_text(remote_index(self.screen.index), remote_index(self.index)),
            ),
    {
        let expression = client_count_expression(self.screen.index, self.index);
        evaluation_request(expression.as_str())
    }

    /// The clients on this tag, from the reply to
    /// [`client_count_request`](Self::client_count_request): as many as the
    /// reply says, with the indices from one up, in that order.
    pub fn get_clients<E>(&self, reply: Result<String, E>) -> (r: Result<
        Vec<AwesomeClient<'_, C>>,
        EvalError<E>,
    >)
        ensures
            match count_outcome(reply) {
                Ok(count) => r matches Ok(clients) && clients@.len() == count && forall|i: int|
                    0 <= i < count ==> #[trigger] clients@[i] == (AwesomeClient {
                        index: (i + 1) as u32,
                        tag: self,
                    }),
                Err(error) => r matches Err(e) && e == error,
            },
            r matches Ok(clients) ==> forall|i: int, j: int|
                0 <= i < j < clients@.len() ==> clients@[i].index < clients@[j].index,
    {
        let count = match count_from_reply(reply) {
            Ok(count) => count,
            Err(error) => {
                return Err(error);
            },
        };
        let mut clients: Vec<AwesomeClient<'_, C>> = Vec::new();
        for i in 0..count
            invariant
                clients@.len() == i,
                forall|j: int|
                    0 <= j < i ==> #[trigger] clients@[j] == (AwesomeClient {
                        index: (j + 1) as u32,
                        tag: self,
                    }),
        {
            clients.push(AwesomeClient { index: i + 1, tag: self });
        }
        Ok(clients)
    }
}

impl<'a, C> AwesomeClient<'a, C> {
    /// The request for the name of this client.
    pub fn name_request(&self) -> (request: String)
        ensures
            request@ == request_text(
                client_name_text(
                    remote_index(self.tag.screen.index),
                    remote_index(self.tag.index),
                    self.index as nat,
                ),
            ),
    {
        let expression = client_name_expression(
            self.tag.screen.index,
            self.tag.index,
            self.index,
        );
        evaluation_request(expression.as_str())
    }

    /// The name of this client, from the reply to
    /// [`name_request`](Self::name_request).
    pub fn get_name<E>(&self, reply: Result<String, E>) -> (r: Result<String, EvalError<E>>)
        ensures
            r == text_outcome(reply),
    {
        text_from_reply(reply)
    }

    /// The request for the X window id of this client.
    pub fn x_window_id_request(&self) -> (request: String)
        ensures
            request@ == request_text(
                client_window_text(
                    remote_index(self.tag.screen.index),
                    remote_index(self.tag.index),
                    self.index as nat,
                ),
            ),
    {
        let expression = client_window_expression(
            self.tag.screen.index,
            self.tag.index,
            self.index,
        );
        evaluation_request(expression.as_str())
    }

    /// The X window id of this client, from the reply to
    /// [`x_window_id_request`](Self::x_window_id_request).
    pub fn get_x_window_id<E>(&self, reply: Result<String, E>) -> (r: Result<u32, EvalError<E>>)
        ensures
            r == count_outcome(reply),
    {
        count_from_reply(reply)
    }

    /// The request for the class of this client.
    pub fn class_request(&self) -> (request: String)
        ensures
            request@ == request_text(
                client_class_text(
                    remote_index(self.tag.screen.index),
                    remote_index(self.tag.index),
                    self.index as nat,
                ),
            ),
    {
        let expression = client_class_expression(
            self.tag.screen.index,
            self.tag.index,
            self.index,
        );
        evaluation_request(expression.as_str())
    }

    /// The class of this client, from the reply to
    /// [`class_request`](Self::class_request).
    pub fn get_class<E>(&self, reply: Result<String, E>) -> (r: Result<String, EvalError<E>>)
        ensures
            r == text_outcome(reply),
    {
        text_from_reply(reply)
    }
}

} // verus!
