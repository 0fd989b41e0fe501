//! Small verified helpers of the parser: names, keyed lists, messages.

use crate::parser::state::{KeyedTranslation, KeyedTranslationModel};
use crate::text::{chars_of, index_of, lemma_index_of_is, str_eq, string_of_range};
use crate::types::{MetadataEntry, MetadataEntryModel};
use vstd::prelude::*;

verus! {

/// The local part of a qualified name: what follows the first `:`, or the
/// whole name where it has none.
pub open spec fn local_name(name: Seq<char>) -> Seq<char> {
    let colon = index_of(name, ':');
    if colon < name.len() {
        name.subrange(colon + 1, name.len() as int)
    } else {
        name
    }
}

/// `s` begins with `prefix`.
pub open spec fn has_prefix(s: Seq<char>, prefix: Seq<char>) -> bool {
    prefix.len() <= s.len() && s.subrange(0, prefix.len() as int) == prefix
}

/// The local part of a qualified name.
pub fn get_local_name_str(name: &str) -> (r: String)
    ensures
        r@ == local_name(name@),
{
    let v = chars_of(name);
    let n = v.len();
    let mut k: usize = 0;
    while k < n && v[k] != ':'
        invariant
            k <= n == v.len(),
            forall|j: int| 0 <= j < k ==> v@[j] != ':',
        decreases n - k,
    {
        k += 1;
    }
    proof {
        lemma_index_of_is(v@, ':', k as int);
    }
    if k < n {
        string_of_range(&v, k + 1, n)
    } else {
        assert(v@.subrange(0, n as int) == v@);
        string_of_range(&v, 0, n)
    }
}

/// Tells whether `s` begins with `prefix`.
pub fn str_starts_with(s: &str, prefix: &str) -> (r: bool)
    ensures
        r == has_prefix(s@, prefix@),
{
    let v = chars_of(s);
    let p = chars_of(prefix);
    if p.len() > v.len() {
        return false;
    }
    let mut i: usize = 0;
    while i < p.len()
        invariant
            i <= p.len() <= v.len(),
            v@ == s@,
            p@ == prefix@,
            v@.subrange(0, i as int) == p@.subrange(0, i as int),
        decreases p.len() - i,
    {
        if v[i] != p[i] {
            assert(s@.subrange(0, prefix@.len() as int)[i as int] != prefix@[i as int]);
            return false;
        }
        assert(v@.subrange(0, i + 1) == v@.subrange(0, i as int).push(v@[i as int]));
        assert(p@.subrange(0, i + 1) == p@.subrange(0, i as int).push(p@[i as int]));
        i += 1;
    }
    assert(p@.subrange(0, p.len() as int) == p@);
    true
}

/// Appends to a vector and says what that does to its model.
pub fn push_model<T: DeepView>(v: &mut Vec<T>, x: T)
    ensures
        final(v)@ == old(v)@.push(x),
        final(v).deep_view() == old(v).deep_view().push(x.deep_view()),
{
    v.push(x);
    assert(v.deep_view() =~= old(v).deep_view().push(x.deep_view()));
}

/// A vector whose elements are those of another, one changed, has the model
/// of the other with that one element's model changed.
pub proof fn lemma_deep_update<T: DeepView>(before: Vec<T>, after: Vec<T>, i: int, x: T)
    requires
        0 <= i < before@.len(),
        after@ == before@.update(i, x),
    ensures
        after.deep_view() == before.deep_view().update(i, x.deep_view()),
{
    assert(after.deep_view() =~= before.deep_view().update(i, x.deep_view()));
}

/// The keys of a metadata list, in order.
pub open spec fn metadata_keys(list: Seq<MetadataEntryModel>) -> Seq<Seq<char>> {
    Seq::new(list.len(), |i: int| list[i].key)
}

/// The metadata list with one more value under a key: the value is appended
/// to the entry of the key, or a new entry is added at the end.
pub open spec fn append_metadata(list: Seq<MetadataEntryModel>, key: Seq<char>, value: Seq<char>) -> Seq<
    MetadataEntryModel,
> {
    let i = index_of(metadata_keys(list), key);
    if i < list.len() {
        list.update(i, MetadataEntryModel { key: key, values: list[i].values.push(value) })
    } else {
        list.push(MetadataEntryModel { key: key, values: seq![value] })
    }
}

/// Records a value under a key of the raw metadata.
pub fn push_metadata(list: &mut Vec<MetadataEntry>, key: String, value: String)
    ensures
        final(list).deep_view() == append_metadata(old(list).deep_view(), key@, value@),
{
    let n = list.len();
    let ghost keys = metadata_keys(list.deep_view());
    let mut k: usize = 0;
    while k < n && !str_eq(list[k].key.as_str(), key.as_str())
        invariant
            k <= n == list.len(),
            *list == *old(list),
            keys == metadata_keys(list.deep_view()),
            forall|j: int| 0 <= j < k ==> keys[j] != key@,
        decreases n - k,
    {
        k += 1;
    }
    proof {
        lemma_index_of_is(keys, key@, k as int);
    }
    if k < n {
        let ghost before = *list;
        let mut entry = list.remove(k);
        let ghost old_entry = entry;
        push_model(&mut entry.values, value);
        let ghost new_entry = entry;
        list.insert(k, entry);
        proof {
            assert(list@ =~= before@.update(k as int, new_entry));
            lemma_deep_update(before, *list, k as int, new_entry);
            assert(old_entry == before@[k as int]);
            assert(keys[k as int] == key@);
            assert(new_entry.key == old_entry.key);
            assert(new_entry.deep_view() == MetadataEntryModel {
                key: key@,
                values: before.deep_view()[k as int].values.push(value@),
            });
        }
    } else {
        let mut values: Vec<String> = Vec::new();
        values.push(value);
        let entry = MetadataEntry { key, values };
        assert(entry.values.deep_view() =~= seq![value@]);
        push_model(list, entry);
    }
}

/// The keys of a translation list, in order.
pub open spec fn translation_keys(list: Seq<KeyedTranslationModel>) -> Seq<Seq<char>> {
    Seq::new(list.len(), |i: int| list[i].key)
}

/// The translation list with an entry stored under its key: it takes the
/// place of the entry of that key, or is added at the end.
pub open spec fn store_translation(list: Seq<KeyedTranslationModel>, entry: KeyedTranslationModel) -> Seq<
    KeyedTranslationModel,
> {
    let i = index_of(translation_keys(list), entry.key);
    if i < list.len() {
        list.update(i, entry)
    } else {
        list.push(entry)
    }
}

/// The entry stored under a key, if any.
pub open spec fn find_translation(list: Seq<KeyedTranslationModel>, key: Seq<char>) -> Option<
    KeyedTranslationModel,
> {
    let i = index_of(translation_keys(list), key);
    if i < list.len() {
        Some(list[i])
    } else {
        None
    }
}

/// The position of the entry stored under a key, or the length of the list.
pub fn translation_index(list: &Vec<KeyedTranslation>, key: &str) -> (k: usize)
    ensures
        k <= list.len(),
        k == index_of(translation_keys(list.deep_view()), key@),
{
    let n = list.len();
    let ghost keys = translation_keys(list.deep_view());
    let mut k: usize = 0;
    while k < n && !str_eq(list[k].key.as_str(), key)
        invariant
            k <= n == list.len(),
            keys == translation_keys(list.deep_view()),
            forall|j: int| 0 <= j < k ==> keys[j] != key@,
        decreases n - k,
    {
        k += 1;
    }
    proof {
        lemma_index_of_is(keys, key@, k as int);
    }
    k
}

/// Stores a translation under its key.
pub fn put_translation(list: &mut Vec<KeyedTranslation>, entry: KeyedTranslation)
    ensures
        final(list).deep_view() == store_translation(old(list).deep_view(), entry.deep_view()),
{
    let k = translation_index(list, entry.key.as_str());
    if k < list.len() {
        let ghost before = *list;
        let ghost e = entry;
        let _ = list.remove(k);
        list.insert(k, entry);
        proof {
            assert(list@ =~= before@.update(k as int, e));
            lemma_deep_update(before, *list, k as int, e);
        }
    } else {
        push_model(list, entry);
    }
}

/// Tells whether a string is among those of a list.
pub fn contains_string(list: &Vec<String>, s: &str) -> (r: bool)
    ensures
        r == list.deep_view().contains(s@),
{
    let n = list.len();
    let mut k: usize = 0;
    while k < n
        invariant
            k <= n == list.len(),
            forall|j: int| 0 <= j < k ==> list.deep_view()[j] != s@,
        decreases n - k,
    {
        if str_eq(list[k].as_str(), s) {
            assert(list.deep_view()[k as int] == s@);
            return true;
        }
        k += 1;
    }
    false
}

/// The character of a decimal digit.
pub open spec fn digit_char(d: nat) -> char {
    (0x30 + d) as u8 as char
}

/// The decimal digits of a number, most significant first.
pub open spec fn decimal_digits(n: nat) -> Seq<char>
    decreases n,
{
    if n < 10 {
        seq![digit_char(n)]
    } else {
        decimal_digits(n / 10).push(digit_char(n % 10))
    }
}

/// Appends the decimal digits of a number to a string.
pub fn push_decimal(out: &mut String, n: u64)
    ensures
        final(out)@ == old(out)@ + decimal_digits(n as nat),
    decreases n,
{
    if n >= 10 {
        push_decimal(out, n / 10);
    }
    let d: u8 = (n % 10) as u8;
    out.push((0x30 + d) as char);
    proof {
        if n >= 10 {
            assert(out@ =~= old(out)@ + decimal_digits(n as nat));
        } else {
            assert(out@ =~= old(out)@ + decimal_digits(n as nat));
        }
    }
}

/// The text `"<start>ms-<end>ms"` that warnings name a time span by.
pub open spec fn span_text(start_ms: u64, end_ms: u64) -> Seq<char> {
    decimal_digits(start_ms as nat) + "ms-"@ + decimal_digits(end_ms as nat) + "ms"@
}

/// Appends the name of a time span to a string.
pub fn push_span_text(out: &mut String, start_ms: u64, end_ms: u64)
    ensures
        final(out)@ == old(out)@ + span_text(start_ms, end_ms),
{
    push_decimal(out, start_ms);
    out.append("ms-");
    push_decimal(out, end_ms);
    out.append("ms");
    assert(out@ =~= old(out)@ + span_text(start_ms, end_ms));
}

/// The three strings, one after another.
pub fn concat3(a: &str, b: &str, c: &str) -> (r: String)
    ensures
        r@ == a@ + b@ + c@,
{
    let mut out = String::from_str(a);
    out.append(b);
    out.append(c);
    out
}

} // verus!
