//! Forms as they are posted to Slack.

use vstd::prelude::*;
use vstd::utf8::{
    decode_utf8, encode_utf8, encode_utf8_decode_utf8, is_ascii_chars, is_ascii_chars_encode_utf8,
};

verus! {

/// A field of a form: its name and its value.
pub type Field = (Seq<char>, Seq<char>);

/// The bytes that stand for themselves in an encoded form.
pub open spec fn plain_byte(b: u8) -> bool {
    ||| b == 0x2a || b == 0x2d || b == 0x2e || b == 0x5f  // '*', '-', '.' and '_'
    ||| 0x30 <= b <= 0x39  // digits
    ||| 0x41 <= b <= 0x5a  // upper case letters
    ||| 0x61 <= b <= 0x7a  // lower case letters
}

/// The upper case hexadecimal digit of a number below sixteen.
pub open spec fn hex_digit(n: int) -> char {
    if n < 10 {
        (0x30 + n) as char
    } else {
        (0x41 + n - 10) as char
    }
}

/// How one byte is written in a form: as itself, a space as `+`, any other as `%` and two
/// hexadecimal digits.
pub open spec fn encoded_byte(b: u8) -> Seq<char> {
    if plain_byte(b) {
        seq![b as char]
    } else if b == 0x20 {
        seq!['+']
    } else {
        seq!['%', hex_digit(b as int / 16), hex_digit(b as int % 16)]
    }
}

/// How a row of bytes is written in a form.
pub open spec fn encoded_bytes(bytes: Seq<u8>) -> Seq<char>
    decreases bytes.len(),
{
    if bytes.len() == 0 {
        Seq::empty()
    } else {
        encoded_byte(bytes[0]) + encoded_bytes(bytes.drop_first())
    }
}

/// How a text is written in a form: byte by byte of its UTF-8 encoding.
pub open spec fn encoded_text(text: Seq<char>) -> Seq<char> {
    encoded_bytes(encode_utf8(text))
}

/// How a field is written in a form: `name=value`.
pub open spec fn encoded_field(field: Field) -> Seq<char> {
    encoded_text(field.0) + seq!['='] + encoded_text(field.1)
}

/// How a form is written: its fields in order, with `&` between them.
pub open spec fn encoded_form(fields: Seq<Field>) -> Seq<char>
    decreases fields.len(),
{
    if fields.len() == 0 {
        Seq::empty()
    } else if fields.len() == 1 {
        encoded_field(fields[0])
    } else {
        encoded_form(fields.drop_last()) + seq!['&'] + encoded_field(fields.last())
    }
}

/// The fields that a list of pairs of strings stands for.
pub open spec fn fields_of(pairs: Seq<(String, String)>) -> Seq<Field> {
    Seq::new(pairs.len(), |i: int| (pairs[i].0@, pairs[i].1@))
}

/// The media type of an encoded form.
pub const FORM_URLENCODED: &'static str = "application/x-www-form-urlencoded";

/// What a form to be posted amounts to.
pub struct FormPostView {
    pub uri: Seq<char>,
    pub content_type: Seq<char>,
    pub content_length: nat,
    pub body: Seq<char>,
}

/// The post that carries `fields` to `uri`: the encoded form, its media type and its length in
/// bytes.
pub open spec fn form_post(uri: Seq<char>, fields: Seq<Field>) -> FormPostView {
    FormPostView {
        uri,
        content_type: FORM_URLENCODED@,
        content_length: encode_utf8(encoded_form(fields)).len(),
        body: encoded_form(fields),
    }
}

/// A form, ready to be sent with the POST method.
#[derive(Debug)]
pub struct FormPost {
    pub uri: String,
    pub content_type: String,
    pub content_length: u64,
    pub body: String,
}

impl View for FormPost {
    type V = FormPostView;

    open spec fn view(&self) -> FormPostView {
        FormPostView {
            uri: self.uri@,
            content_type: self.content_type@,
            content_length: self.content_length as nat,
            body: self.body@,
        }
    }
}

/// Calls `serde_urlencoded::to_string` on pairs of strings. Its contract claims that this never
/// fails, and that the text is the `application/x-www-form-urlencoded` form of the pairs.
#[verifier::external_body]
fn to_form(pairs: &Vec<(String, String)>) -> (form: Option<String>)
    ensures
        form is Some,
        form->0@ == encoded_form(fields_of(pairs@)),
{
    serde_urlencoded::to_string(pairs).ok()
}

/// Makes the post that carries the pairs to the address.
pub fn request_build(uri: &str, pairs: &Vec<(String, String)>) -> (post: FormPost)
    ensures
        post@ == form_post(uri@, fields_of(pairs@)),
{
    let body = to_form(pairs).unwrap();
    let length: usize = body.as_str().as_bytes().len();
    FormPost {
        uri: uri.to_string(),
        content_type: FORM_URLENCODED.to_string(),
        content_length: length as u64,
        body,
    }
}

/// An encoded row of bytes holds ASCII characters only, and neither `=` nor `&`.
proof fn lemma_encoded_bytes_alphabet(bytes: Seq<u8>)
    ensures
        is_ascii_chars(encoded_bytes(bytes)),
        !encoded_bytes(bytes).contains('='),
        !encoded_bytes(bytes).contains('&'),
    decreases bytes.len(),
{
    if bytes.len() > 0 {
        lemma_encoded_bytes_alphabet(bytes.drop_first());
        let head = encoded_byte(bytes[0]);
        let tail = encoded_bytes(bytes.drop_first());
        let b = bytes[0];
        assert forall|i: int| 0 <= i < head.len() implies '\0' <= #[trigger] head[i] <= '\u{7f}'
            && head[i] != '=' && head[i] != '&' by {
            if plain_byte(b) {
                assert(head[i] as int == b);
            }
        }
        assert forall|i: int| 0 <= i < (head + tail).len() implies '\0' <= #[trigger] (head
            + tail)[i] <= '\u{7f}' && (head + tail)[i] != '=' && (head + tail)[i] != '&' by {
            if i < head.len() {
                assert((head + tail)[i] == head[i]);
            } else {
                assert((head + tail)[i] == tail[i - head.len()]);
            }
        }
    }
}

/// Bytes with the same encoding are the same.
proof fn lemma_encoded_byte_first(a: u8, b: u8, u: Seq<char>, v: Seq<char>)
    requires
        encoded_byte(a) + u == encoded_byte(b) + v,
    ensures
        a == b,
        u == v,
{
    let x = encoded_byte(a) + u;
    let y = encoded_byte(b) + v;
    assert(x[0] == encoded_byte(a)[0]);
    assert(y[0] == encoded_byte(b)[0]);
    if plain_byte(a) {
        assert(x[0] as int == a);
    }
    if plain_byte(b) {
        assert(y[0] as int == b);
    }
    assert(encoded_byte(a).len() == encoded_byte(b).len());
    if encoded_byte(a).len() == 3 {
        assert(x[1] == hex_digit(a as int / 16) && x[2] == hex_digit(a as int % 16));
        assert(y[1] == hex_digit(b as int / 16) && y[2] == hex_digit(b as int % 16));
        assert(x[1] as int == y[1] as int && x[2] as int == y[2] as int);
    }
    assert(u =~= x.skip(encoded_byte(a).len() as int));
    assert(v =~= y.skip(encoded_byte(b).len() as int));
}

/// Rows of bytes with the same encoding are the same.
proof fn lemma_encoded_bytes_injective(a: Seq<u8>, b: Seq<u8>)
    requires
        encoded_bytes(a) == encoded_bytes(b),
    ensures
        a == b,
    decreases a.len(),
{
    if a.len() > 0 {
        assert(encoded_bytes(a).len() > 0);
    }
    if b.len() > 0 {
        assert(encoded_bytes(b).len() > 0);
    }
    if a.len() > 0 && b.len() > 0 {
        lemma_encoded_byte_first(
            a[0],
            b[0],
            encoded_bytes(a.drop_first()),
            encoded_bytes(b.drop_first()),
        );
        lemma_encoded_bytes_injective(a.drop_first(), b.drop_first());
        assert(a =~= seq![a[0]] + a.drop_first());
        assert(b =~= seq![b[0]] + b.drop_first());
    } else {
        assert(a =~= b);
    }
}

/// Texts with the same encoding are the same.
proof fn lemma_encoded_text_injective(a: Seq<char>, b: Seq<char>)
    requires
        encoded_text(a) == encoded_text(b),
    ensures
        a == b,
{
    lemma_encoded_bytes_injective(encode_utf8(a), encode_utf8(b));
    encode_utf8_decode_utf8(a);
    encode_utf8_decode_utf8(b);
}

/// A mark that does not occur in front of it splits a text in one way only.
proof fn lemma_split_first(a: Seq<char>, b: Seq<char>, c: Seq<char>, d: Seq<char>, mark: char)
    requires
        a + seq![mark] + b == c + seq![mark] + d,
        !a.contains(mark),
        !c.contains(mark),
    ensures
        a == c,
        b == d,
{
    let x = a + seq![mark] + b;
    let y = c + seq![mark] + d;
    assert(x[a.len() as int] == mark);
    assert(y[c.len() as int] == mark);
    if a.len() < c.len() {
        assert(y[a.len() as int] == c[a.len() as int]);
    }
    if c.len() < a.len() {
        assert(x[c.len() as int] == a[c.len() as int]);
    }
    assert(a =~= x.take(a.len() as int));
    assert(c =~= y.take(c.len() as int));
    assert(b =~= x.skip(a.len() as int + 1));
    assert(d =~= y.skip(c.len() as int + 1));
}

/// A mark that does not occur behind it splits a text in one way only.
proof fn lemma_split_last(a: Seq<char>, b: Seq<char>, c: Seq<char>, d: Seq<char>, mark: char)
    requires
        a + seq![mark] + b == c + seq![mark] + d,
        !b.contains(mark),
        !d.contains(mark),
    ensures
        a == c,
        b == d,
{
    let x = a + seq![mark] + b;
    let y = c + seq![mark] + d;
    assert(x.len() == a.len() + 1 + b.len());
    assert(y.len() == c.len() + 1 + d.len());
    assert(x[a.len() as int] == mark);
    assert(y[c.len() as int] == mark);
    if a.len() < c.len() {
        assert(x[c.len() as int] == b[c.len() - a.len() - 1]);
    }
    if c.len() < a.len() {
        assert(y[a.len() as int] == d[a.len() - c.len() - 1]);
    }
    assert(a =~= x.take(a.len() as int));
    assert(c =~= y.take(c.len() as int));
    assert(b =~= x.skip(a.len() as int + 1));
    assert(d =~= y.skip(c.len() as int + 1));
}

/// An encoded field is ASCII, is not empty and holds no `&`.
proof fn lemma_encoded_field_alphabet(field: Field)
    ensures
        is_ascii_chars(encoded_field(field)),
        encoded_field(field).len() > 0,
        !encoded_field(field).contains('&'),
{
    lemma_encoded_bytes_alphabet(encode_utf8(field.0));
    lemma_encoded_bytes_alphabet(encode_utf8(field.1));
    let a = encoded_text(field.0);
    let b = encoded_text(field.1);
    let x = encoded_field(field);
    assert forall|i: int| 0 <= i < x.len() implies '\0' <= #[trigger] x[i] <= '\u{7f}' && x[i]
        != '&' by {
        if i < a.len() {
            assert(x[i] == a[i]);
        } else if i > a.len() {
            assert(x[i] == b[i - a.len() - 1]);
        }
    }
}

/// Fields with the same encoding are the same.
proof fn lemma_encoded_field_injective(a: Field, b: Field)
    requires
        encoded_field(a) == encoded_field(b),
    ensures
        a == b,
{
    lemma_encoded_bytes_alphabet(encode_utf8(a.0));
    lemma_encoded_bytes_alphabet(encode_utf8(b.0));
    lemma_split_first(
        encoded_text(a.0),
        encoded_text(a.1),
        encoded_text(b.0),
        encoded_text(b.1),
        '=',
    );
    lemma_encoded_text_injective(a.0, b.0);
    lemma_encoded_text_injective(a.1, b.1);
}

/// An encoded form is ASCII.
proof fn lemma_encoded_form_ascii(fields: Seq<Field>)
    ensures
        is_ascii_chars(encoded_form(fields)),
    decreases fields.len(),
{
    if fields.len() == 1 {
        lemma_encoded_field_alphabet(fields[0]);
    } else if fields.len() > 1 {
        lemma_encoded_form_ascii(fields.drop_last());
        lemma_encoded_field_alphabet(fields.last());
        let a = encoded_form(fields.drop_last());
        let b = encoded_field(fields.last());
        let x = encoded_form(fields);
        assert forall|i: int| 0 <= i < x.len() implies '\0' <= #[trigger] x[i] <= '\u{7f}' by {
            if i < a.len() {
                assert(x[i] == a[i]);
            } else if i > a.len() {
                assert(x[i] == b[i - a.len() - 1]);
            }
        }
    }
}

/// The length that a post announces is the number of characters of its body: an encoded form is
/// plain ASCII, whatever its fields hold.
pub proof fn law_length_counts_characters(uri: Seq<char>, fields: Seq<Field>)
    ensures
        is_ascii_chars(form_post(uri, fields).body),
        form_post(uri, fields).content_length == form_post(uri, fields).body.len(),
{
    lemma_encoded_form_ascii(fields);
    is_ascii_chars_encode_utf8(encoded_form(fields));
}

/// The body of a post determines its fields: whatever names and values are sent, the receiver can
/// tell them apart.
pub proof fn law_form_determines_fields(a: Seq<Field>, b: Seq<Field>)
    requires
        encoded_form(a) == encoded_form(b),
    ensures
        a == b,
    decreases a.len(),
{
    if a.len() == 1 {
        lemma_encoded_field_alphabet(a[0]);
    } else if a.len() > 1 {
        assert(encoded_form(a)[encoded_form(a.drop_last()).len() as int] == '&');
    }
    if b.len() == 1 {
        lemma_encoded_field_alphabet(b[0]);
    } else if b.len() > 1 {
        assert(encoded_form(b)[encoded_form(b.drop_last()).len() as int] == '&');
    }
    if a.len() > 1 && b.len() > 1 {
        lemma_encoded_field_alphabet(a.last());
        lemma_encoded_field_alphabet(b.last());
        lemma_split_last(
            encoded_form(a.drop_last()),
            encoded_field(a.last()),
            encoded_form(b.drop_last()),
            encoded_field(b.last()),
            '&',
        );
        lemma_encoded_field_injective(a.last(), b.last());
        law_form_determines_fields(a.drop_last(), b.drop_last());
        assert(a =~= a.drop_last().push(a.last()));
        assert(b =~= b.drop_last().push(b.last()));
    } else if a.len() == 1 && b.len() == 1 {
        lemma_encoded_field_injective(a[0], b[0]);
        assert(a =~= b);
    } else {
        assert(a =~= b);
    }
}

/// The number that a hexadecimal digit stands for.
pub open spec fn hex_value(c: char) -> int {
    if '0' <= c <= '9' {
        c as int - '0' as int
    } else {
        c as int - 'A' as int + 10
    }
}

/// The bytes that the receiver of a form reads in a name or a value: a plus stands for a space, a
/// percent sign and two digits for the byte of that number, and any other character for itself.
pub open spec fn read_bytes(text: Seq<char>) -> Seq<u8>
    decreases text.len(),
{
    if text.len() == 0 {
        Seq::empty()
    } else if text[0] == '%' && text.len() > 2 {
        seq![(16 * hex_value(text[1]) + hex_value(text[2])) as u8] + read_bytes(text.skip(3))
    } else if text[0] == '+' {
        seq![0x20u8] + read_bytes(text.skip(1))
    } else {
        seq![text[0] as u8] + read_bytes(text.skip(1))
    }
}

/// The text that the receiver of a form reads in a name or a value.
pub open spec fn read_text(text: Seq<char>) -> Seq<char> {
    decode_utf8(read_bytes(text))
}

/// The parts of a text between the marks in it.
pub open spec fn parts(text: Seq<char>, mark: char) -> Seq<Seq<char>>
    decreases text.len(),
{
    if text.len() == 0 {
        seq![Seq::empty()]
    } else {
        let front = parts(text.drop_last(), mark);
        if text.last() == mark {
            front.push(Seq::empty())
        } else {
            front.drop_last().push(front.last().push(text.last()))
        }
    }
}

/// The fields that the receiver of a form reads in its body.
pub open spec fn read_form(body: Seq<char>) -> Seq<Field> {
    if body.len() == 0 {
        Seq::empty()
    } else {
        Seq::new(
            parts(body, '&').len(),
            |i: int|
                {
                    let sides = parts(parts(body, '&')[i], '=');
                    (read_text(sides[0]), read_text(sides[1]))
                },
        )
    }
}

/// The receiver reads back the bytes that were encoded.
proof fn lemma_bytes_are_read_back(bytes: Seq<u8>)
    ensures
        read_bytes(encoded_bytes(bytes)) == bytes,
    decreases bytes.len(),
{
    if bytes.len() > 0 {
        let b = bytes[0];
        let head = encoded_byte(b);
        let tail = encoded_bytes(bytes.drop_first());
        let all = encoded_bytes(bytes);
        lemma_bytes_are_read_back(bytes.drop_first());
        assert(all == head + tail);
        assert(all.skip(head.len() as int) =~= tail);
        assert(all[0] == head[0]);
        if plain_byte(b) {
            assert(head[0] as int == b);
        } else if b != 0x20 {
            assert(all[1] == head[1] && all[2] == head[2]);
            assert(hex_value(all[1]) == b as int / 16);
            assert(hex_value(all[2]) == b as int % 16);
        }
        assert(read_bytes(all) =~= seq![b] + bytes.drop_first());
        assert(bytes =~= seq![b] + bytes.drop_first());
    } else {
        assert(read_bytes(encoded_bytes(bytes)) =~= bytes);
    }
}

/// The receiver reads back the text that was encoded.
proof fn lemma_text_is_read_back(text: Seq<char>)
    ensures
        read_text(encoded_text(text)) == text,
{
    lemma_bytes_are_read_back(encode_utf8(text));
    encode_utf8_decode_utf8(text);
}

/// A text without marks behind a mark is a part of its own.
proof fn lemma_last_part(front: Seq<char>, part: Seq<char>, mark: char)
    requires
        !part.contains(mark),
    ensures
        parts(front + seq![mark] + part, mark) == parts(front, mark).push(part),
    decreases part.len(),
{
    let all = front + seq![mark] + part;
    if part.len() == 0 {
        assert(all.drop_last() =~= front);
        assert(part =~= Seq::empty());
    } else {
        let shorter = part.drop_last();
        assert(part.contains(part.last()));
        assert forall|i: int| 0 <= i < shorter.len() implies shorter[i] != mark by {
            assert(part.contains(part[i]));
        }
        lemma_last_part(front, shorter, mark);
        assert(all.drop_last() =~= front + seq![mark] + shorter);
        assert(shorter.push(part.last()) =~= part);
        assert(parts(all, mark) =~= parts(front, mark).push(part));
    }
}

/// A text without marks is its only part.
proof fn lemma_only_part(text: Seq<char>, mark: char)
    requires
        !text.contains(mark),
    ensures
        parts(text, mark) == seq![text],
    decreases text.len(),
{
    if text.len() > 0 {
        let shorter = text.drop_last();
        assert(text.contains(text.last()));
        assert forall|i: int| 0 <= i < shorter.len() implies shorter[i] != mark by {
            assert(text.contains(text[i]));
        }
        lemma_only_part(shorter, mark);
        assert(shorter.push(text.last()) =~= text);
        assert(parts(text, mark) =~= seq![text]);
    } else {
        assert(text =~= Seq::empty());
    }
}

/// The parts of an encoded form are its encoded fields.
proof fn lemma_parts_of_form(fields: Seq<Field>)
    requires
        fields.len() > 0,
    ensures
        parts(encoded_form(fields), '&').len() == fields.len(),
        forall|i: int|
            0 <= i < fields.len() ==> #[trigger] parts(encoded_form(fields), '&')[i]
                == encoded_field(fields[i]),
    decreases fields.len(),
{
    lemma_encoded_field_alphabet(fields.last());
    if fields.len() == 1 {
        lemma_only_part(encoded_field(fields[0]), '&');
    } else {
        lemma_parts_of_form(fields.drop_last());
        lemma_last_part(
            encoded_form(fields.drop_last()),
            encoded_field(fields.last()),
            '&',
        );
        let before = parts(encoded_form(fields.drop_last()), '&');
        assert forall|i: int| 0 <= i < fields.len() implies #[trigger] parts(
            encoded_form(fields),
            '&',
        )[i] == encoded_field(fields[i]) by {
            if i < fields.len() - 1 {
                assert(before[i] == encoded_field(fields.drop_last()[i]));
            }
        }
    }
}

/// Whoever receives a form reads in it just the fields that were sent: each name and each value,
/// whole and unchanged, in the same order and no others.
pub proof fn law_form_is_read_back(fields: Seq<Field>)
    ensures
        read_form(encoded_form(fields)) == fields,
{
    let body = encoded_form(fields);
    if fields.len() > 0 {
        lemma_parts_of_form(fields);
        lemma_encoded_field_alphabet(fields.last());
        assert(body.len() > 0);
        assert forall|i: int| 0 <= i < fields.len() implies #[trigger] read_form(body)[i]
            == fields[i] by {
            let field = fields[i];
            assert(parts(body, '&')[i] == encoded_field(field));
            lemma_encoded_bytes_alphabet(encode_utf8(field.0));
            lemma_encoded_bytes_alphabet(encode_utf8(field.1));
            lemma_only_part(encoded_text(field.0), '=');
            lemma_last_part(encoded_text(field.0), encoded_text(field.1), '=');
            lemma_text_is_read_back(field.0);
            lemma_text_is_read_back(field.1);
        }
        assert(read_form(body) =~= fields);
    } else {
        assert(read_form(body) =~= fields);
    }
}

/// A post goes to the address that was given, announces what it is and how long it is, and its
/// receiver reads in it just the pairs that were given.
pub proof fn law_post_carries_the_pairs(uri: &str, pairs: &Vec<(String, String)>, post: FormPost)
    requires
        call_ensures(request_build, (uri, pairs), post),
    ensures
        post.uri@ == uri@,
        post.content_type@ == "application/x-www-form-urlencoded"@,
        post.content_length == post.body@.len(),
        read_form(post.body@).len() == pairs@.len(),
        forall|i: int|
            0 <= i < pairs@.len() ==> (#[trigger] read_form(post.body@)[i]).0 == pairs@[i].0@
                && read_form(post.body@)[i].1 == pairs@[i].1@,
        post@.uri == post.uri@,
        post@.content_type == post.content_type@,
        post@.content_length == post.content_length,
        post@.body == post.body@,
{
    law_length_counts_characters(uri@, fields_of(pairs@));
    law_form_is_read_back(fields_of(pairs@));
}

} // verus!
