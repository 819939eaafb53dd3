//! The Lua expressions that address the parts of the tree.
//!
//! Every expression that this crate ever sends is built here, from indices
//! alone: no text of a caller's finds its way into one.
//!
//! The window manager counts screens and tags from one, while a screen or a
//! tag of this crate carries its position counted from zero. The step from
//! the one to the other is [`remote_index`], and it is taken here and nowhere
//! else. A client is different: the index it carries is already the one the
//! window manager uses, and it is written out as it is.

use vstd::prelude::*;
use vstd::string::*;
use crate::text::{lemma_cancel_back, lemma_cancel_front};
use crate::decimal::{
    all_digits, append_decimal, decimal, is_digit, lemma_decimal_injective,
    lemma_decimal_is_digits,
};

verus! {

/// The index under which the window manager knows the screen or tag that
/// this crate has at position `local`.
pub open spec fn remote_index(local: u32) -> nat {
    (local + 1) as nat
}

/// The expression for the number of screens.
pub open spec fn screen_count_text() -> Seq<char> {
    "screen:count()"@
}

/// The expression for the screen with remote index `screen`.
pub open spec fn screen_text(screen: nat) -> Seq<char> {
    "screen["@ + decimal(screen) + "]"@
}

/// The expression for the tag with remote index `tag` on a screen.
pub open spec fn tag_text(screen: nat, tag: nat) -> Seq<char> {
    screen_text(screen) + ".tags["@ + decimal(tag) + "]"@
}

/// The expression for the client with remote index `client` on a tag.
pub open spec fn client_text(screen: nat, tag: nat, client: nat) -> Seq<char> {
    tag_text(screen, tag) + ":clients()["@ + decimal(client) + "]"@
}

/// The expression for the number of tags of a screen.
pub open spec fn tag_count_text(screen: nat) -> Seq<char> {
    "#"@ + screen_text(screen) + ".tags"@
}

/// The expression for the name of a tag.
pub open spec fn tag_name_text(screen: nat, tag: nat) -> Seq<char> {
    tag_text(screen, tag) + ".name"@
}

/// The expression for the number of clients of a tag.
pub open spec fn client_count_text(screen: nat, tag: nat) -> Seq<char> {
    "#"@ + tag_text(screen, tag) + ":clients()"@
}

/// The expression for the name of a client.
pub open spec fn client_name_text(screen: nat, tag: nat, client: nat) -> Seq<char> {
    client_text(screen, tag, client) + ".name"@
}

/// The expression for the X window id of a client.
pub open spec fn client_window_text(screen: nat, tag: nat, client: nat) -> Seq<char> {
    client_text(screen, tag, client) + ".window"@
}

/// The expression for the class of a client.
pub open spec fn client_class_text(screen: nat, tag: nat, client: nat) -> Seq<char> {
    client_text(screen, tag, client) + ".class"@
}

/// An index between brackets can be read in one way only: where two texts
/// with the same beginning, then a number and a closing bracket, are equal,
/// the numbers are equal, and so is what follows the bracket.
proof fn lemma_index_read_once(
    front: Seq<char>,
    a: nat,
    after_a: Seq<char>,
    b: nat,
    after_b: Seq<char>,
)
    requires
        front + decimal(a) + "]"@ + after_a == front + decimal(b) + "]"@ + after_b,
    ensures
        a == b,
        after_a == after_b,
{
    reveal_strlit("]");
    let da = decimal(a);
    let db = decimal(b);
    let tail_a = "]"@ + after_a;
    let tail_b = "]"@ + after_b;
    lemma_decimal_is_digits(a);
    lemma_decimal_is_digits(b);
    assert(front + da + "]"@ + after_a =~= front + (da + tail_a));
    assert(front + db + "]"@ + after_b =~= front + (db + tail_b));
    lemma_cancel_front(front, da + tail_a, db + tail_b);
    assert(tail_a[0] == ']' && tail_b[0] == ']');
    if da.len() < db.len() {
        assert((da + tail_a)[da.len() as int] == tail_a[0]);
        assert((db + tail_b)[da.len() as int] == db[da.len() as int]);
        assert(is_digit(db[da.len() as int]));
        assert(false);
    }
    if db.len() < da.len() {
        assert((db + tail_b)[db.len() as int] == tail_b[0]);
        assert((da + tail_a)[db.len() as int] == da[db.len() as int]);
        assert(is_digit(da[db.len() as int]));
        assert(false);
    }
    assert forall|i: int| 0 <= i < da.len() implies da[i] == db[i] by {
        assert((da + tail_a)[i] == (db + tail_b)[i]);
    }
    assert(da =~= db);
    lemma_decimal_injective(a, b);
    lemma_cancel_front(da, tail_a, tail_b);
    lemma_cancel_front("]"@, after_a, after_b);
}

/// A screen's expression names one screen only.
pub proof fn lemma_screen_text_injective(screen_a: nat, screen_b: nat)
    requires
        screen_text(screen_a) == screen_text(screen_b),
    ensures
        screen_a == screen_b,
{
    let none = Seq::<char>::empty();
    assert(screen_text(screen_a) =~= "screen["@ + decimal(screen_a) + "]"@ + none);
    assert(screen_text(screen_b) =~= "screen["@ + decimal(screen_b) + "]"@ + none);
    lemma_index_read_once("screen["@, screen_a, none, screen_b, none);
}

/// A tag's expression names one tag only: the screen and the tag can both
/// be read off it.
pub proof fn lemma_tag_text_injective(screen_a: nat, tag_a: nat, screen_b: nat, tag_b: nat)
    requires
        tag_text(screen_a, tag_a) == tag_text(screen_b, tag_b),
    ensures
        screen_a == screen_b,
        tag_a == tag_b,
{
    let none = Seq::<char>::empty();
    let after_a = ".tags["@ + decimal(tag_a) + "]"@ + none;
    let after_b = ".tags["@ + decimal(tag_b) + "]"@ + none;
    assert(tag_text(screen_a, tag_a) =~= "screen["@ + decimal(screen_a) + "]"@ + after_a);
    assert(tag_text(screen_b, tag_b) =~= "screen["@ + decimal(screen_b) + "]"@ + after_b);
    lemma_index_read_once("screen["@, screen_a, after_a, screen_b, after_b);
    lemma_index_read_once(".tags["@, tag_a, none, tag_b, none);
}

/// A client's expression names one client only: the screen, the tag and
/// the client's index can all be read off it.
pub proof fn lemma_client_text_injective(
    screen_a: nat,
    tag_a: nat,
    client_a: nat,
    screen_b: nat,
    tag_b: nat,
    client_b: nat,
)
    requires
        client_text(screen_a, tag_a, client_a) == client_text(screen_b, tag_b, client_b),
    ensures
        screen_a == screen_b,
        tag_a == tag_b,
        client_a == client_b,
{
    let none = Seq::<char>::empty();
    let last_a = ":clients()["@ + decimal(client_a) + "]"@ + none;
    let last_b = ":clients()["@ + decimal(client_b) + "]"@ + none;
    let after_a = ".tags["@ + decimal(tag_a) + "]"@ + last_a;
    let after_b = ".tags["@ + decimal(tag_b) + "]"@ + last_b;
    assert(client_text(screen_a, tag_a, client_a) =~= "screen["@ + decimal(screen_a) + "]"@
        + after_a);
    assert(client_text(screen_b, tag_b, client_b) =~= "screen["@ + decimal(screen_b) + "]"@
        + after_b);
    lemma_index_read_once("screen["@, screen_a, after_a, screen_b, after_b);
    lemma_index_read_once(".tags["@, tag_a, last_a, tag_b, last_b);
    lemma_index_read_once(":clients()["@, client_a, none, client_b, none);
}

/// The expression for a number of tags names one screen only.
pub proof fn lemma_tag_count_text_injective(screen_a: nat, screen_b: nat)
    requires
        tag_count_text(screen_a) == tag_count_text(screen_b),
    ensures
        screen_a == screen_b,
{
    lemma_cancel_back("#"@ + screen_text(screen_a), "#"@ + screen_text(screen_b), ".tags"@);
    lemma_cancel_front("#"@, screen_text(screen_a), screen_text(screen_b));
    lemma_screen_text_injective(screen_a, screen_b);
}

/// The expression for a tag's name names one tag only.
pub proof fn lemma_tag_name_text_injective(screen_a: nat, tag_a: nat, screen_b: nat, tag_b: nat)
    requires
        tag_name_text(screen_a, tag_a) == tag_name_text(screen_b, tag_b),
    ensures
        screen_a == screen_b,
        tag_a == tag_b,
{
    lemma_cancel_back(tag_text(screen_a, tag_a), tag_text(screen_b, tag_b), ".name"@);
    lemma_tag_text_injective(screen_a, tag_a, screen_b, tag_b);
}

/// The expression for a number of clients names one tag only.
pub proof fn lemma_client_count_text_injective(
    screen_a: nat,
    tag_a: nat,
    screen_b: nat,
    tag_b: nat,
)
    requires
        client_count_text(screen_a, tag_a) == client_count_text(screen_b, tag_b),
    ensures
        screen_a == screen_b,
        tag_a == tag_b,
{
    lemma_cancel_back(
        "#"@ + tag_text(screen_a, tag_a),
        "#"@ + tag_text(screen_b, tag_b),
        ":clients()"@,
    );
    lemma_cancel_front("#"@, tag_text(screen_a, tag_a), tag_text(screen_b, tag_b));
    lemma_tag_text_injective(screen_a, tag_a, screen_b, tag_b);
}

/// The expression for a client's name names one client only.
pub proof fn lemma_client_name_text_injective(
    screen_a: nat,
    tag_a: nat,
    client_a: nat,
    screen_b: nat,
    tag_b: nat,
    client_b: nat,
)
    requires
        client_name_text(screen_a, tag_a, client_a) == client_name_text(
            screen_b,
            tag_b,
            client_b,
        ),
    ensures
        screen_a == screen_b,
        tag_a == tag_b,
        client_a == client_b,
{
    lemma_cancel_back(
        client_text(screen_a, tag_a, client_a),
        client_text(screen_b, tag_b, client_b),
        ".name"@,
    );
    lemma_client_text_injective(screen_a, tag_a, client_a, screen_b, tag_b, client_b);
}

/// The expression for a client's X window id names one client only.
pub proof fn lemma_client_window_text_injective(
    screen_a: nat,
    tag_a: nat,
    client_a: nat,
    screen_b: nat,
    tag_b: nat,
    client_b: nat,
)
    requires
        client_window_text(screen_a, tag_a, client_a) == client_window_text(
            screen_b,
            tag_b,
            client_b,
        ),
    ensures
        screen_a == screen_b,
        tag_a == tag_b,
        client_a == client_b,
{
    lemma_cancel_back(
        client_text(screen_a, tag_a, client_a),
        client_text(screen_b, tag_b, client_b),
        ".window"@,
    );
    lemma_client_text_injective(screen_a, tag_a, client_a, screen_b, tag_b, client_b);
}

/// The expression for a client's class names one client only.
pub proof fn lemma_client_class_text_injective(
    screen_a: nat,
    tag_a: nat,
    client_a: nat,
    screen_b: nat,
    tag_b: nat,
    client_b: nat,
)
    requires
        client_class_text(screen_a, tag_a, client_a) == client_class_text(
            screen_b,
            tag_b,
            client_b,
        ),
    ensures
        screen_a == screen_b,
        tag_a == tag_b,
        client_a == client_b,
{
    lemma_cancel_back(
        client_text(screen_a, tag_a, client_a),
        client_text(screen_b, tag_b, client_b),
        ".class"@,
    );
    lemma_client_text_injective(screen_a, tag_a, client_a, screen_b, tag_b, client_b);
}

/// Appends the expression for the screen at position `screen`.
fn append_screen(text: &mut String, screen: u32)
    ensures
        final(text)@ == old(text)@ + screen_text(remote_index(screen)),
{
    text.append("screen[");
    append_decimal(text, screen as u64 + 1);
    text.append("]");
    assert(text@ =~= old(text)@ + screen_text(remote_index(screen)));
}

/// Appends the expression for the tag at position `tag` of the screen at
/// position `screen`.
fn append_tag(text: &mut String, screen: u32, tag: u32)
    ensures
        final(text)@ == old(text)@ + tag_text(remote_index(screen), remote_index(tag)),
{
    append_screen(text, screen);
    text.append(".tags[");
    append_decimal(text, tag as u64 + 1);
    text.append("]");
    assert(text@ =~= old(text)@ + tag_text(remote_index(screen), remote_index(tag)));
}

/// Appends the expression for the client with index `client` on the tag at
/// position `tag` of the screen at position `screen`.
fn append_client(text: &mut String, screen: u32, tag: u32, client: u32)
    ensures
        final(text)@ == old(text)@ + client_text(
            remote_index(screen),
            remote_index(tag),
            client as nat,
        ),
{
    append_tag(text, screen, tag);
    text.append(":clients()[");
    append_decimal(text, client as u64);
    text.append("]");
    assert(text@ =~= old(text)@ + client_text(
        remote_index(screen),
        remote_index(tag),
        client as nat,
    ));
}

/// The expression for the number of screens.
pub fn screen_count_expression() -> (text: String)
    ensures
        text@ == screen_count_text(),
{
    String::from_str("screen:count()")
}

/// The expression for the number of tags of the screen at position
/// `screen`.
pub fn tag_count_expression(screen: u32) -> (text: String)
    ensures
        text@ == tag_count_text(remote_index(screen)),
{
    let mut text = String::from_str("#");
    append_screen(&mut text, screen);
    text.append(".tags");
    text
}

/// The expression for the name of the tag at position `tag` of the screen
/// at position `screen`.
pub fn tag_name_expression(screen: u32, tag: u32) -> (text: String)
    ensures
        text@ == tag_name_text(remote_index(screen), remote_index(tag)),
{
    let mut text = String::new();
    append_tag(&mut text, screen, tag);
    text.append(".name");
    assert(text@ =~= tag_name_text(remote_index(screen), remote_index(tag)));
    text
}

/// The expression for the number of clients of the tag at position `tag`
/// of the screen at position `screen`.
pub fn client_count_expression(screen: u32, tag: u32) -> (text: String)
    ensures
        text@ == client_count_text(remote_index(screen), remote_index(tag)),
{
    let mut text = String::from_str("#");
    append_tag(&mut text, screen, tag);
    text.append(":clients()");
    text
}

/// The expression for the name of the client with index `client`.
pub fn client_name_expression(screen: u32, tag: u32, client: u32) -> (text: String)
    ensures
        text@ == client_name_text(remote_index(screen), remote_index(tag), client as nat),
{
    let mut text = String::new();
    append_client(&mut text, screen, tag, client);
    text.append(".name");
    assert(text@ =~= client_name_text(remote_index(screen), remote_index(tag), client as nat));
    text
}

/// The expression for the X window id of the client with index `client`.
pub fn client_window_expression(screen: u32, tag: u32, client: u32) -> (text: String)
    ensures
        text@ == client_window_text(remote_index(screen), remote_index(tag), client as nat),
{
    let mut text = String::new();
    append_client(&mut text, screen, tag, client);
    text.append(".window");
    assert(text@ =~= client_window_text(remote_index(screen), remote_index(tag), client as nat));
    text
}

/// The expression for the class of the client with index `client`.
pub fn client_class_expression(screen: u32, tag: u32, client: u32) -> (text: String)
    ensures
        text@ == client_class_text(remote_index(screen), remote_index(tag), client as nat),
{
    let mut text = String::new();
    append_client(&mut text, screen, tag, client);
    text.append(".class");
    assert(text@ =~= client_class_text(remote_index(screen), remote_index(tag), client as nat));
    text
}

} // verus!
