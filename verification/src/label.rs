//! Domain names as sequences of labels, RFC 1035, section 3.1.

use crate::buffer;
use crate::buffer::contents;
use crate::error::{DecodeError, Field, LabelError};
use crate::reader::read_bytes;
use crate::text::string_from_utf8;
use vstd::prelude::*;
use vstd::slice::slice_to_vec;
use vstd::string::StringSliceAdditionalSpecFns;
use vstd::utf8::{decode_utf8, encode_utf8, valid_utf8};

verus! {

/// The most labels that a name may be built from.
pub const MAX_LABELS: usize = 63;

/// The most bytes that a label may have.
pub const MAX_LABEL_LEN: usize = 255;

/// A label as the contracts see it: its text and its stored length.
pub type Label = (Seq<char>, u8);

/// A domain name: its labels from left to right, each with the length in
/// bytes of its text.
#[derive(Debug, PartialEq, Eq)]
pub struct LabelSequence {
    pub labels: Vec<(String, u8)>,
}

impl View for LabelSequence {
    type V = Seq<Label>;

    open spec fn view(&self) -> Seq<Label> {
        Seq::new(self.labels@.len(), |i: int| (self.labels@[i].0@, self.labels@[i].1))
    }
}

/// Whether each stored length is the length in bytes of the text beside it.
pub open spec fn lengths_agree(labels: Seq<Label>) -> bool {
    forall|i: int| 0 <= i < labels.len() ==> (#[trigger] labels[i]).1 == encode_utf8(labels[i].0).len()
}

/// Whether no label is empty.
pub open spec fn no_empty_label(labels: Seq<Label>) -> bool {
    forall|i: int| 0 <= i < labels.len() ==> (#[trigger] labels[i]).1 != 0
}

/// Whether a text is too long for a label.
pub open spec fn too_long(text: Seq<char>) -> bool {
    encode_utf8(text).len() > 255
}

/// The labels that a list of texts makes: each text with its length in
/// bytes.
pub open spec fn labels_of(texts: Seq<Seq<char>>) -> Seq<Label> {
    Seq::new(texts.len(), |i: int| (texts[i], encode_utf8(texts[i]).len() as u8))
}

/// The texts of a list of strings.
pub open spec fn texts_of(input: Seq<String>) -> Seq<Seq<char>> {
    Seq::new(input.len(), |i: int| input[i]@)
}

/// The encoding of labels without the terminator: for each label in order,
/// its stored length as one byte and then the bytes of its text.
pub open spec fn labels_bytes(labels: Seq<Label>) -> Seq<u8>
    decreases labels.len(),
{
    if labels.len() == 0 {
        Seq::empty()
    } else {
        seq![labels[0].1] + encode_utf8(labels[0].0) + labels_bytes(labels.drop_first())
    }
}

/// The encoding of a name: its labels and then one zero byte.
pub open spec fn name_bytes(labels: Seq<Label>) -> Seq<u8> {
    labels_bytes(labels) + seq![0u8]
}

/// What decoding labels from `s`, starting at `at`, gives.
///
/// At the end of the input there is no length byte to read: truncation. A
/// zero length byte ends the name. Otherwise the length byte announces a
/// text of that many bytes: truncation if the input has fewer left, an
/// encoding error if they are not valid UTF-8; else the label is that text
/// with that length, and the labels after it follow. On success the result
/// holds the labels and the offset just past the terminator.
pub open spec fn parse_labels(s: Seq<u8>, at: int) -> Result<(Seq<Label>, int), DecodeError>
    decreases s.len() - at,
{
    if at < 0 || at >= s.len() {
        Err(DecodeError::TruncatedInput { field: Field::LabelLength, offset: s.len() as usize })
    } else if s[at] == 0 {
        Ok((Seq::empty(), at + 1))
    } else if at + 1 + s[at] > s.len() {
        Err(DecodeError::TruncatedInput { field: Field::LabelText, offset: (at + 1) as usize })
    } else if !valid_utf8(s.subrange(at + 1, at + 1 + s[at])) {
        Err(DecodeError::InvalidLabelEncoding { offset: (at + 1) as usize })
    } else {
        match parse_labels(s, at + 1 + s[at]) {
            Ok((labels, end)) => Ok(
                (seq![(decode_utf8(s.subrange(at + 1, at + 1 + s[at])), s[at])] + labels, end),
            ),
            Err(e) => Err(e),
        }
    }
}

/// What decoding a name from the front of `s` gives: its labels and the
/// count of bytes read, or the error.
pub open spec fn parse_name(s: Seq<u8>) -> Result<(Seq<Label>, int), DecodeError> {
    parse_labels(s, 0)
}

/// A decoding result with labels that were decoded before it put in front.
pub open spec fn after_labels(
    before: Seq<Label>,
    r: Result<(Seq<Label>, int), DecodeError>,
) -> Result<(Seq<Label>, int), DecodeError> {
    match r {
        Ok((labels, end)) => Ok((before + labels, end)),
        Err(e) => Err(e),
    }
}

/// Adding a label at the end of a list adds its length byte and the bytes
/// of its text at the end of the encoding.
pub proof fn lemma_labels_bytes_push(labels: Seq<Label>, last: Label)
    ensures
        labels_bytes(labels.push(last)) == labels_bytes(labels) + seq![last.1] + encode_utf8(
            last.0,
        ),
    decreases labels.len(),
{
    if labels.len() == 0 {
        let one = labels.push(last);
        assert(one.drop_first() =~= Seq::<Label>::empty());
        assert(labels_bytes(one.drop_first()) =~= Seq::<u8>::empty());
        assert(labels_bytes(one) == seq![one[0].1] + encode_utf8(one[0].0) + labels_bytes(
            one.drop_first(),
        ));
        assert(labels_bytes(labels.push(last)) =~= labels_bytes(labels) + seq![last.1]
            + encode_utf8(last.0));
    } else {
        lemma_labels_bytes_push(labels.drop_first(), last);
        let longer = labels.push(last);
        assert(longer.drop_first() =~= labels.drop_first().push(last));
        assert(longer[0] == labels[0]);
        assert(labels_bytes(longer) == seq![longer[0].1] + encode_utf8(longer[0].0)
            + labels_bytes(longer.drop_first()));
        assert(labels_bytes(labels.push(last)) =~= labels_bytes(labels) + seq![last.1]
            + encode_utf8(last.0));
    }
}

impl LabelSequence {
    /// Whether each stored length is the length in bytes of the text
    /// beside it.
    pub open spec fn lengths_agree(&self) -> bool {
        lengths_agree(self@)
    }

    /// Builds a name from the texts of its labels.
    ///
    /// Fails with `TooManyLabels` when there are more than 63 texts;
    /// otherwise with `LabelTooLong`, carrying the first text of more than
    /// 255 bytes, when there is one. On success each label is the text at
    /// its place with its length in bytes.
    pub fn new(input: Vec<String>) -> (r: Result<LabelSequence, LabelError>)
        ensures
            input@.len() > 63 ==> r matches Err(LabelError::TooManyLabels),
            input@.len() <= 63 ==> match r {
                Ok(name) => {
                    &&& name@ == labels_of(texts_of(input@))
                    &&& name.lengths_agree()
                    &&& forall|i: int| 0 <= i < input@.len() ==> !too_long(#[trigger] input@[i]@)
                },
                Err(LabelError::LabelTooLong(text)) => exists|i: int|
                    {
                        &&& 0 <= i < input@.len()
                        &&& too_long(#[trigger] input@[i]@)
                        &&& text@ == input@[i]@
                        &&& forall|j: int| 0 <= j < i ==> !too_long(#[trigger] input@[j]@)
                    },
                Err(LabelError::TooManyLabels) => false,
            },
    {
        if input.len() > MAX_LABELS {
            return Err(LabelError::TooManyLabels);
        }
        let mut labels: Vec<(String, u8)> = Vec::new();
        let mut i: usize = 0;
        while i < input.len()
            invariant
                i <= input@.len() <= 63,
                labels@.len() == i,
                forall|j: int| 0 <= j < i ==> !too_long(#[trigger] input@[j]@),
                forall|j: int|
                    0 <= j < i ==> (#[trigger] labels@[j]).0@ == input@[j]@ && labels@[j].1
                        == encode_utf8(input@[j]@).len(),
            decreases input@.len() - i,
        {
            let text = input[i].clone();
            let length = text.as_str().as_bytes().len();
            if length > MAX_LABEL_LEN {
                return Err(LabelError::LabelTooLong(text));
            }
            labels.push((text, length as u8));
            i = i + 1;
        }
        let name = LabelSequence { labels };
        proof {
            assert(name@ =~= labels_of(texts_of(input@)));
        }
        Ok(name)
    }

    /// Encodes the name: for each label in order its stored length as one
    /// byte and then the bytes of its text, and one zero byte at the end.
    pub fn serialize(&self) -> (bytes: Vec<u8>)
        ensures
            bytes@ == name_bytes(self@),
    {
        let mut buf = buffer::with_capacity(512);
        let mut i: usize = 0;
        while i < self.labels.len()
            invariant
                i <= self.labels@.len(),
                contents(buf) == labels_bytes(self@.take(i as int)),
            decreases self.labels@.len() - i,
        {
            let length = self.labels[i].1;
            buffer::put_u8(&mut buf, length);
            buffer::put_slice(&mut buf, self.labels[i].0.as_str().as_bytes());
            proof {
                lemma_labels_bytes_push(self@.take(i as int), self@[i as int]);
                assert(self@.take(i as int).push(self@[i as int]) =~= self@.take(i + 1));
                assert(contents(buf) =~= labels_bytes(self@.take(i as int)) + seq![
                    self@[i as int].1,
                ] + encode_utf8(self@[i as int].0));
            }
            i = i + 1;
        }
        proof {
            assert(self@.take(i as int) =~= self@);
        }
        buffer::put_u8(&mut buf, 0);
        buffer::to_vec(&buf)
    }

    /// Decodes a name from the front of `data` and returns it with the
    /// input that follows its terminator.
    pub fn deserialize(data: &[u8]) -> (r: Result<(&[u8], LabelSequence), DecodeError>)
        ensures
            match parse_name(data@) {
                Ok((labels, read)) => {
                    &&& r matches Ok((rest, name))
                    &&& name@ == labels
                    &&& name.lengths_agree()
                    &&& 0 < read <= data@.len()
                    &&& rest@ == data@.skip(read)
                },
                Err(e) => r matches Err(got) && got == e && e.offset() <= data@.len(),
            },
    {
        let mut labels: Vec<(String, u8)> = Vec::new();
        let mut remaining = data;
        let mut at: usize = 0;
        let total = data.len();
        let ghost mut seen: Seq<Label> = Seq::empty();

        while !remaining.is_empty() && remaining[0] != 0
            invariant
                at <= data@.len() == total,
                remaining@ == data@.skip(at as int),
                seen == Seq::new(labels@.len(), |i: int| (labels@[i].0@, labels@[i].1)),
                lengths_agree(seen),
                parse_name(data@) == after_labels(seen, parse_labels(data@, at as int)),
            decreases data@.len() - at,
        {
            let ghost start = at as int;
            let ghost announced = data@[start];
            assert(remaining@.len() == data@.len() - at);
            let (after_length, length) = read_bytes(1, remaining, Field::LabelLength, at)?;
            assert(length@[0] == announced);
            let (after_text, text) = read_bytes(
                length[0] as usize,
                after_length,
                Field::LabelText,
                at + 1,
            )?;
            assert(text@ =~= data@.subrange(start + 1, start + 1 + announced));
            let label = match string_from_utf8(slice_to_vec(text)) {
                Ok(label) => label,
                Err(_) => {
                    return Err(DecodeError::InvalidLabelEncoding { offset: at + 1 });
                },
            };
            proof {
                vstd::utf8::encode_utf8_decode_utf8(label@);
                let decoded = (label@, length@[0]);
                assert(seen + (seq![decoded] + parse_labels(
                    data@,
                    start + 1 + announced,
                )->Ok_0.0) =~= seen.push(decoded) + parse_labels(
                    data@,
                    start + 1 + announced,
                )->Ok_0.0);
                seen = seen.push(decoded);
            }
            labels.push((label, length[0]));
            at = at + 1 + length[0] as usize;
            remaining = after_text;
            assert(remaining@ =~= data@.skip(at as int));
            assert(seen =~= Seq::new(labels@.len(), |i: int| (labels@[i].0@, labels@[i].1)));
        }

        let (remaining, _) = read_bytes(1, remaining, Field::LabelLength, at)?;
        let name = LabelSequence { labels };
        proof {
            assert(name@ =~= seen);
            assert(seen + Seq::<Label>::empty() =~= seen);
            assert(remaining@ =~= data@.skip(at + 1));
        }
        Ok((remaining, name))
    }
}

impl Clone for LabelSequence {
    /// A copy with the same labels.
    fn clone(&self) -> (copy: Self)
        ensures
            copy@ == self@,
    {
        let mut labels: Vec<(String, u8)> = Vec::new();
        let mut i: usize = 0;
        while i < self.labels.len()
            invariant
                i <= self.labels@.len(),
                labels@.len() == i,
                forall|j: int| 0 <= j < i ==> #[trigger] labels@[j] == self.labels@[j],
            decreases self.labels@.len() - i,
        {
            let text = self.labels[i].0.clone();
            labels.push((text, self.labels[i].1));
            i = i + 1;
        }
        let copy = LabelSequence { labels };
        proof {
            assert(copy@ =~= self@);
        }
        copy
    }
}

/// Decoding finds the labels of an encoded name wherever the encoding
/// stands in the input.
proof fn lemma_parse_encoded_labels(before: Seq<u8>, labels: Seq<Label>, tail: Seq<u8>)
    requires
        lengths_agree(labels),
        no_empty_label(labels),
    ensures
        parse_labels(before + name_bytes(labels) + tail, before.len() as int) == Ok::<
            (Seq<Label>, int),
            DecodeError,
        >((labels, (before.len() + name_bytes(labels).len()) as int)),
    decreases labels.len(),
{
    let s = before + name_bytes(labels) + tail;
    let at = before.len() as int;
    if labels.len() == 0 {
        assert(labels_bytes(labels) =~= Seq::<u8>::empty());
        assert(s[at] == 0);
        assert(labels =~= Seq::<Label>::empty());
    } else {
        let first = labels[0];
        let others = labels.drop_first();
        let text = encode_utf8(first.0);
        let head = seq![first.1] + text;
        assert(name_bytes(labels) =~= head + name_bytes(others));
        assert(s =~= (before + head) + name_bytes(others) + tail);
        assert(s[at] == first.1);
        assert(s.subrange(at + 1, at + 1 + first.1) =~= text);
        vstd::utf8::encode_utf8_valid_utf8(first.0);
        vstd::utf8::encode_utf8_decode_utf8(first.0);
        assert(lengths_agree(others) && no_empty_label(others)) by {
            assert forall|i: int| 0 <= i < others.len() implies (#[trigger] others[i]).1
                == encode_utf8(others[i].0).len() && others[i].1 != 0 by {
                assert(others[i] == labels[i + 1]);
            }
        }
        lemma_parse_encoded_labels(before + head, others, tail);
        assert(seq![first] + others =~= labels);
    }
}

/// Decoding the encoding of a name, whatever bytes follow it, gives the
/// name back and leaves exactly the bytes that followed it, provided that
/// each stored length is the length of its text and that no label is
/// empty. (An empty label is encoded as a zero byte, which reads back as
/// the end of the name.)
pub proof fn lemma_name_round_trip(labels: Seq<Label>, tail: Seq<u8>)
    requires
        lengths_agree(labels),
        no_empty_label(labels),
    ensures
        parse_name(name_bytes(labels) + tail) == Ok::<(Seq<Label>, int), DecodeError>(
            (labels, name_bytes(labels).len() as int),
        ),
        (name_bytes(labels) + tail).skip(name_bytes(labels).len() as int) == tail,
{
    lemma_parse_encoded_labels(Seq::empty(), labels, tail);
    assert(Seq::<u8>::empty() + name_bytes(labels) + tail =~= name_bytes(labels) + tail);
    assert((name_bytes(labels) + tail).skip(name_bytes(labels).len() as int) =~= tail);
}

/// Whatever decodes stands in the input as it would be encoded: the bytes
/// read are the encoding of the labels found, each label found has the
/// length of its text, and none is empty. Whatever fails, fails at a place
/// within the input or at its end.
pub proof fn lemma_parse_labels_reads_encoding(s: Seq<u8>, at: int)
    requires
        0 <= at,
        s.len() <= usize::MAX,
    ensures
        match parse_labels(s, at) {
            Ok((labels, end)) => {
                &&& at < end <= s.len()
                &&& s.subrange(at, end) == name_bytes(labels)
                &&& lengths_agree(labels)
                &&& no_empty_label(labels)
            },
            Err(e) => e.offset() <= s.len(),
        },
    decreases s.len() - at,
{
    if at >= s.len() {
    } else if s[at] == 0 {
        let labels = Seq::<Label>::empty();
        assert(labels_bytes(labels) =~= Seq::<u8>::empty());
        assert(s.subrange(at, at + 1) =~= name_bytes(labels));
    } else if at + 1 + s[at] > s.len() {
    } else if !valid_utf8(s.subrange(at + 1, at + 1 + s[at])) {
    } else {
        let next = at + 1 + s[at];
        let text = s.subrange(at + 1, next);
        lemma_parse_labels_reads_encoding(s, next);
        if let Ok((others, end)) = parse_labels(s, next) {
            let first = (decode_utf8(text), s[at]);
            let labels = seq![first] + others;
            vstd::utf8::decode_utf8_encode_utf8(text);
            assert(labels.drop_first() =~= others);
            assert(labels[0] == first);
            assert(s.subrange(at, end) =~= seq![s[at]] + text + s.subrange(next, end));
            assert forall|i: int| 0 <= i < labels.len() implies (#[trigger] labels[i]).1
                == encode_utf8(labels[i].0).len() && labels[i].1 != 0 by {
                if i > 0 {
                    assert(labels[i] == others[i - 1]);
                }
            }
        }
    }
}

} // verus!
