//! Line protocol: literal text of keys, values and timestamps, points and
//! point schemas.

use vstd::prelude::*;
use crate::text::{decimal_text, int_text, push_char, push_i64, push_u64};

verus! {

/// A string field value in double quotes, with backslashes and double
/// quotes escaped by a backslash.
pub open spec fn escaped(s: Seq<char>) -> Seq<char>
    decreases s.len(),
{
    if s.len() == 0 {
        Seq::empty()
    } else {
        let c = s.last();
        escaped(s.drop_last()) + if c == '\\' {
            seq!['\\', '\\']
        } else if c == '"' {
            seq!['\\', '"']
        } else {
            seq![c]
        }
    }
}

pub open spec fn quoted(s: Seq<char>) -> Seq<char> {
    seq!['"'] + escaped(s) + seq!['"']
}

/// Appends `s` quoted and escaped.
fn push_quoted(out: &mut String, s: &str)
    ensures
        final(out)@ == old(out)@ + quoted(s@),
{
    push_char(out, '"');
    let n = s.unicode_len();
    let mut i: usize = 0;
    while i < n
        invariant
            n == s@.len(),
            i <= n,
            out@ == old(out)@ + seq!['"'] + escaped(s@.subrange(0, i as int)),
        decreases n - i,
    {
        let c = s.get_char(i);
        assert(s@.subrange(0, i + 1).drop_last() =~= s@.subrange(0, i as int));
        assert(s@.subrange(0, i + 1).last() == c);
        if c == '\\' {
            push_char(out, '\\');
            push_char(out, '\\');
        } else if c == '"' {
            push_char(out, '\\');
            push_char(out, '"');
        } else {
            push_char(out, c);
        }
        i = i + 1;
        assert(out@ =~= old(out)@ + seq!['"'] + escaped(s@.subrange(0, i as int)));
    }
    assert(s@.subrange(0, n as int) =~= s@);
    push_char(out, '"');
    assert(out@ =~= old(out)@ + quoted(s@));
}

/// A type whose values can be written as a line-protocol field value.
pub trait ValueWritable {
    /// The field-value literal.
    spec fn value_text(&self) -> Seq<char>;

    /// Writes the field-value literal.
    fn encode_value(&self) -> (r: String)
        ensures
            r@ == self.value_text(),
    ;
}

/// A type whose values can be written as a tag key, tag value or field key.
pub trait KeyWritable {
    /// The key text.
    spec fn key_text(&self) -> Seq<char>;

    /// Writes the key text.
    fn encode_key(&self) -> (r: String)
        ensures
            r@ == self.key_text(),
    ;
}

/// Tags written as `key=value`, joined by commas.
pub trait TagsWritable {
    spec fn tags_text(&self) -> Seq<char>;

    /// Writes the tags.
    fn encode_tags(&self) -> (r: String)
        ensures
            r@ == self.tags_text(),
    ;
}

/// Fields written as `key=value`, joined by commas.
pub trait FieldsWritable {
    spec fn fields_text(&self) -> Seq<char>;

    /// Writes the fields.
    fn encode_fields(&self) -> (r: String)
        ensures
            r@ == self.fields_text(),
    ;
}

/// A type that can be written as a timestamp, such as `1465839830100400200`.
pub trait TimestampWritable {
    spec fn timestamp_text(&self) -> Seq<char>;

    /// Writes the timestamp.
    fn encode_timestamp(&self) -> (r: String)
        ensures
            r@ == self.timestamp_text(),
    ;
}

impl ValueWritable for i64 {
    open spec fn value_text(&self) -> Seq<char> {
        int_text(*self as int) + seq!['i']
    }

    fn encode_value(&self) -> (r: String) {
        let mut r = String::new();
        push_i64(&mut r, *self);
        push_char(&mut r, 'i');
        assert(r@ =~= int_text(*self as int) + seq!['i']);
        r
    }
}

impl ValueWritable for u64 {
    open spec fn value_text(&self) -> Seq<char> {
        decimal_text(*self as nat) + seq!['u']
    }

    fn encode_value(&self) -> (r: String) {
        let mut r = String::new();
        push_u64(&mut r, *self);
        push_char(&mut r, 'u');
        assert(r@ =~= decimal_text(*self as nat) + seq!['u']);
        r
    }
}

impl ValueWritable for bool {
    open spec fn value_text(&self) -> Seq<char> {
        if *self {
            seq!['t']
        } else {
            seq!['f']
        }
    }

    fn encode_value(&self) -> (r: String) {
        let mut r = String::new();
        push_char(&mut r, if *self { 't' } else { 'f' });
        assert(r@ =~= self.value_text());
        r
    }
}

impl ValueWritable for String {
    open spec fn value_text(&self) -> Seq<char> {
        quoted(self@)
    }

    fn encode_value(&self) -> (r: String) {
        let mut r = String::new();
        push_quoted(&mut r, self.as_str());
        assert(r@ =~= quoted(self@));
        assert(self.value_text() == quoted(self@));
        r
    }
}

impl<'a> ValueWritable for &'a str {
    open spec fn value_text(&self) -> Seq<char> {
        quoted(self@)
    }

    fn encode_value(&self) -> (r: String) {
        let mut r = String::new();
        push_quoted(&mut r, *self);
        assert(r@ =~= quoted(self@));
        r
    }
}

impl<'a> KeyWritable for &'a str {
    open spec fn key_text(&self) -> Seq<char> {
        self@
    }

    fn encode_key(&self) -> (r: String) {
        (*self).to_owned()
    }
}

impl KeyWritable for String {
    open spec fn key_text(&self) -> Seq<char> {
        self@
    }

    fn encode_key(&self) -> (r: String) {
        self.clone()
    }
}

impl KeyWritable for u64 {
    open spec fn key_text(&self) -> Seq<char> {
        decimal_text(*self as nat)
    }

    fn encode_key(&self) -> (r: String) {
        let mut r = String::new();
        push_u64(&mut r, *self);
        assert(r@ =~= decimal_text(*self as nat));
        r
    }
}

impl TimestampWritable for u64 {
    open spec fn timestamp_text(&self) -> Seq<char> {
        decimal_text(*self as nat)
    }

    fn encode_timestamp(&self) -> (r: String) {
        let mut r = String::new();
        push_u64(&mut r, *self);
        assert(r@ =~= decimal_text(*self as nat));
        r
    }
}

impl TimestampWritable for i64 {
    open spec fn timestamp_text(&self) -> Seq<char> {
        int_text(*self as int)
    }

    fn encode_timestamp(&self) -> (r: String) {
        let mut r = String::new();
        push_i64(&mut r, *self);
        assert(r@ =~= int_text(*self as int));
        r
    }
}

impl<T1: KeyWritable, T2: KeyWritable> TagsWritable for (T1, T2) {
    open spec fn tags_text(&self) -> Seq<char> {
        self.0.key_text() + "="@ + self.1.key_text()
    }

    fn encode_tags(&self) -> (r: String) {
        let mut res = String::new();
        res.append(self.0.encode_key().as_str());
        res.append("=");
        res.append(self.1.encode_key().as_str());
        assert(res@ =~= self.tags_text());
        res
    }
}

impl<T1: KeyWritable, T2: KeyWritable, T3: KeyWritable, T4: KeyWritable> TagsWritable for (T1, T2, T3, T4) {
    open spec fn tags_text(&self) -> Seq<char> {
        self.0.key_text() + "="@ + self.1.key_text() + ","@ + self.2.key_text() + "="@ + self.3.key_text()
    }

    fn encode_tags(&self) -> (r: String) {
        let mut res = String::new();
        res.append(self.0.encode_key().as_str());
        res.append("=");
        res.append(self.1.encode_key().as_str());
        res.append(",");
        res.append(self.2.encode_key().as_str());
        res.append("=");
        res.append(self.3.encode_key().as_str());
        assert(res@ =~= self.tags_text());
        res
    }
}

impl<T1: KeyWritable, T2: KeyWritable, T3: KeyWritable, T4: KeyWritable, T5: KeyWritable, T6: KeyWritable> TagsWritable for (T1, T2, T3, T4, T5, T6) {
    open spec fn tags_text(&self) -> Seq<char> {
        self.0.key_text() + "="@ + self.1.key_text() + ","@ + self.2.key_text() + "="@ + self.3.key_text() + ","@ + self.4.key_text() + "="@ + self.5.key_text()
    }

    fn encode_tags(&self) -> (r: String) {
        let mut res = String::new();
        res.append(self.0.encode_key().as_str());
        res.append("=");
        res.append(self.1.encode_key().as_str());
        res.append(",");
        res.append(self.2.encode_key().as_str());
        res.append("=");
        res.append(self.3.encode_key().as_str());
        res.append(",");
        res.append(self.4.encode_key().as_str());
        res.append("=");
        res.append(self.5.encode_key().as_str());
        assert(res@ =~= self.tags_text());
        res
    }
}

impl<K1: KeyWritable, V1: ValueWritable> FieldsWritable for (K1, V1) {
    open spec fn fields_text(&self) -> Seq<char> {
        self.0.key_text() + "="@ + self.1.value_text()
    }

    fn encode_fields(&self) -> (r: String) {
        let mut res = String::new();
        res.append(self.0.encode_key().as_str());
        res.append("=");
        res.append(self.1.encode_value().as_str());
        assert(res@ =~= self.fields_text());
        res
    }
}

impl<K1: KeyWritable, V1: ValueWritable, K2: KeyWritable, V2: ValueWritable> FieldsWritable for (K1, V1, K2, V2) {
    open spec fn fields_text(&self) -> Seq<char> {
        self.0.key_text() + "="@ + self.1.value_text() + ","@ + self.2.key_text() + "="@ + self.3.value_text()
    }

    fn encode_fields(&self) -> (r: String) {
        let mut res = String::new();
        res.append(self.0.encode_key().as_str());
        res.append("=");
        res.append(self.1.encode_value().as_str());
        res.append(",");
        res.append(self.2.encode_key().as_str());
        res.append("=");
        res.append(self.3.encode_value().as_str());
        assert(res@ =~= self.fields_text());
        res
    }
}

impl<K1: KeyWritable, V1: ValueWritable, K2: KeyWritable, V2: ValueWritable, K3: KeyWritable, V3: ValueWritable> FieldsWritable for (K1, V1, K2, V2, K3, V3) {
    open spec fn fields_text(&self) -> Seq<char> {
        self.0.key_text() + "="@ + self.1.value_text() + ","@ + self.2.key_text() + "="@ + self.3.value_text() + ","@ + self.4.key_text() + "="@ + self.5.value_text()
    }

    fn encode_fields(&self) -> (r: String) {
        let mut res = String::new();
        res.append(self.0.encode_key().as_str());
        res.append("=");
        res.append(self.1.encode_value().as_str());
        res.append(",");
        res.append(self.2.encode_key().as_str());
        res.append("=");
        res.append(self.3.encode_value().as_str());
        res.append(",");
        res.append(self.4.encode_key().as_str());
        res.append("=");
        res.append(self.5.encode_value().as_str());
        assert(res@ =~= self.fields_text());
        res
    }
}

impl<K1: KeyWritable, V1: ValueWritable, K2: KeyWritable, V2: ValueWritable, K3: KeyWritable, V3: ValueWritable, K4: KeyWritable, V4: ValueWritable> FieldsWritable for (K1, V1, K2, V2, K3, V3, K4, V4) {
    open spec fn fields_text(&self) -> Seq<char> {
        self.0.key_text() + "="@ + self.1.value_text() + ","@ + self.2.key_text() + "="@ + self.3.value_text() + ","@ + self.4.key_text() + "="@ + self.5.value_text() + ","@ + self.6.key_text() + "="@ + self.7.value_text()
    }

    fn encode_fields(&self) -> (r: String) {
        let mut res = String::new();
        res.append(self.0.encode_key().as_str());
        res.append("=");
        res.append(self.1.encode_value().as_str());
        res.append(",");
        res.append(self.2.encode_key().as_str());
        res.append("=");
        res.append(self.3.encode_value().as_str());
        res.append(",");
        res.append(self.4.encode_key().as_str());
        res.append("=");
        res.append(self.5.encode_value().as_str());
        res.append(",");
        res.append(self.6.encode_key().as_str());
        res.append("=");
        res.append(self.7.encode_value().as_str());
        assert(res@ =~= self.fields_text());
        res
    }
}

impl<K1: KeyWritable, V1: ValueWritable, K2: KeyWritable, V2: ValueWritable, K3: KeyWritable, V3: ValueWritable, K4: KeyWritable, V4: ValueWritable, K5: KeyWritable, V5: ValueWritable> FieldsWritable for (K1, V1, K2, V2, K3, V3, K4, V4, K5, V5) {
    open spec fn fields_text(&self) -> Seq<char> {
        self.0.key_text() + "="@ + self.1.value_text() + ","@ + self.2.key_text() + "="@ + self.3.value_text() + ","@ + self.4.key_text() + "="@ + self.5.value_text() + ","@ + self.6.key_text() + "="@ + self.7.value_text() + ","@ + self.8.key_text() + "="@ + self.9.value_text()
    }

    fn encode_fields(&self) -> (r: String) {
        let mut res = String::new();
        res.append(self.0.encode_key().as_str());
        res.append("=");
        res.append(self.1.encode_value().as_str());
        res.append(",");
        res.append(self.2.encode_key().as_str());
        res.append("=");
        res.append(self.3.encode_value().as_str());
        res.append(",");
        res.append(self.4.encode_key().as_str());
        res.append("=");
        res.append(self.5.encode_value().as_str());
        res.append(",");
        res.append(self.6.encode_key().as_str());
        res.append("=");
        res.append(self.7.encode_value().as_str());
        res.append(",");
        res.append(self.8.encode_key().as_str());
        res.append("=");
        res.append(self.9.encode_value().as_str());
        assert(res@ =~= self.fields_text());
        res
    }
}

impl<K1: KeyWritable, V1: ValueWritable, K2: KeyWritable, V2: ValueWritable, K3: KeyWritable, V3: ValueWritable, K4: KeyWritable, V4: ValueWritable, K5: KeyWritable, V5: ValueWritable, K6: KeyWritable, V6: ValueWritable> FieldsWritable for (K1, V1, K2, V2, K3, V3, K4, V4, K5, V5, K6, V6) {
    open spec fn fields_text(&self) -> Seq<char> {
        self.0.key_text() + "="@ + self.1.value_text() + ","@ + self.2.key_text() + "="@ + self.3.value_text() + ","@ + self.4.key_text() + "="@ + self.5.value_text() + ","@ + self.6.key_text() + "="@ + self.7.value_text() + ","@ + self.8.key_text() + "="@ + self.9.value_text() + ","@ + self.10.key_text() + "="@ + self.11.value_text()
    }

    fn encode_fields(&self) -> (r: String) {
        let mut res = String::new();
        res.append(self.0.encode_key().as_str());
        res.append("=");
        res.append(self.1.encode_value().as_str());
        res.append(",");
        res.append(self.2.encode_key().as_str());
        res.append("=");
        res.append(self.3.encode_value().as_str());
        res.append(",");
        res.append(self.4.encode_key().as_str());
        res.append("=");
        res.append(self.5.encode_value().as_str());
        res.append(",");
        res.append(self.6.encode_key().as_str());
        res.append("=");
        res.append(self.7.encode_value().as_str());
        res.append(",");
        res.append(self.8.encode_key().as_str());
        res.append("=");
        res.append(self.9.encode_value().as_str());
        res.append(",");
        res.append(self.10.encode_key().as_str());
        res.append("=");
        res.append(self.11.encode_value().as_str());
        assert(res@ =~= self.fields_text());
        res
    }
}

impl<K1: KeyWritable, V1: ValueWritable, K2: KeyWritable, V2: ValueWritable, K3: KeyWritable, V3: ValueWritable, K4: KeyWritable, V4: ValueWritable, K5: KeyWritable, V5: ValueWritable, K6: KeyWritable, V6: ValueWritable, K7: KeyWritable, V7: ValueWritable> FieldsWritable for (K1, V1, K2, V2, K3, V3, K4, V4, K5, V5, K6, V6, K7, V7) {
    open spec fn fields_text(&self) -> Seq<char> {
        self.0.key_text() + "="@ + self.1.value_text() + ","@ + self.2.key_text() + "="@ + self.3.value_text() + ","@ + self.4.key_text() + "="@ + self.5.value_text() + ","@ + self.6.key_text() + "="@ + self.7.value_text() + ","@ + self.8.key_text() + "="@ + self.9.value_text() + ","@ + self.10.key_text() + "="@ + self.11.value_text() + ","@ + self.12.key_text() + "="@ + self.13.value_text()
    }

    fn encode_fields(&self) -> (r: String) {
        let mut res = String::new();
        res.append(self.0.encode_key().as_str());
        res.append("=");
        res.append(self.1.encode_value().as_str());
        res.append(",");
        res.append(self.2.encode_key().as_str());
        res.append("=");
        res.append(self.3.encode_value().as_str());
        res.append(",");
        res.append(self.4.encode_key().as_str());
        res.append("=");
        res.append(self.5.encode_value().as_str());
        res.append(",");
        res.append(self.6.encode_key().as_str());
        res.append("=");
        res.append(self.7.encode_value().as_str());
        res.append(",");
        res.append(self.8.encode_key().as_str());
        res.append("=");
        res.append(self.9.encode_value().as_str());
        res.append(",");
        res.append(self.10.encode_key().as_str());
        res.append("=");
        res.append(self.11.encode_value().as_str());
        res.append(",");
        res.append(self.12.encode_key().as_str());
        res.append("=");
        res.append(self.13.encode_value().as_str());
        assert(res@ =~= self.fields_text());
        res
    }
}

} // verus!
