use vstd::prelude::*;
use crate::common::HeaderText;
use crate::error::{Error, is_config_error};
use crate::text::{check_object_key, decimal, is_header_value, is_object_key, push_decimal};
use crate::validate::MAX_PART_NUMBER;
use crate::xml::{push_escaped, xml_escape, xml_unescape};
use crate::response::{
    close_tag, element_text_in, lemma_escaped_lt_never_before, lemma_find_in_first, lemma_lt_never_before_concat,
    lemma_no_element, lt_never_before, occurs_at, open_tag,
};

verus! {

/// Largest number of objects one batch delete may name.
pub const MAX_DELETE_OBJECTS_PER_REQUEST: usize = 1000;

// ---------------------------------------------------------------- object keys

/// A string that is an acceptable object key (`is_object_key`).
pub struct ObjectKey {
    text: String,
}

impl View for ObjectKey {
    type V = Seq<char>;

    closed spec fn view(&self) -> Seq<char> {
        self.text@
    }
}

impl ObjectKey {
    #[verifier::type_invariant]
    spec fn inv(self) -> bool {
        is_object_key(self.text@)
    }

    /// Accepts `key` when it is an acceptable object key.
    pub fn new(key: &str) -> (r: Result<ObjectKey, Error>)
        ensures
            r is Ok <==> is_object_key(key@),
            r matches Ok(k) ==> k@ == key@,
            r matches Err(e) ==> is_config_error(e, "invalid object key"@),
    {
        if !check_object_key(key) {
            return Err(Error::invalid_config("invalid object key"));
        }
        Ok(ObjectKey { text: String::from_str(key) })
    }

    /// The key.
    pub fn as_str(&self) -> (s: &str)
        ensures
            s@ == self@,
            is_object_key(s@),
    {
        proof {
            use_type_invariant(self);
        }
        self.text.as_str()
    }
}

// ---------------------------------------------------------------- batch deletes

/// One object of a batch delete: a key and, optionally, a version id.
pub struct DeleteObjectIdentifier {
    key: ObjectKey,
    version_id: Option<HeaderText>,
}

impl View for DeleteObjectIdentifier {
    type V = (Seq<char>, Option<Seq<char>>);

    closed spec fn view(&self) -> (Seq<char>, Option<Seq<char>>) {
        (
            self.key@,
            match self.version_id {
                Some(v) => Some(v@),
                None => None,
            },
        )
    }
}

impl DeleteObjectIdentifier {
    /// Names the object `key`, which must be an acceptable object key.
    pub fn new(key: &str) -> (r: Result<DeleteObjectIdentifier, Error>)
        ensures
            r is Ok <==> is_object_key(key@),
            r matches Ok(o) ==> o@ == (key@, None::<Seq<char>>),
            r matches Err(e) ==> is_config_error(e, "invalid object key"@),
    {
        let key = ObjectKey::new(key)?;
        Ok(DeleteObjectIdentifier { key, version_id: None })
    }

    /// Names one version of the object.
    pub fn with_version_id(self, version_id: &str) -> (r: Result<DeleteObjectIdentifier, Error>)
        ensures
            r is Ok <==> is_header_value(version_id@),
            r matches Ok(o) ==> o@ == (self@.0, Some(version_id@)),
            r matches Err(e) ==> is_config_error(e, "invalid version_id"@),
    {
        let v = HeaderText::new(version_id, "invalid version_id")?;
        Ok(DeleteObjectIdentifier { key: self.key, version_id: Some(v) })
    }
}

/// The views of a list of delete identifiers.
pub open spec fn ids_view(s: Seq<DeleteObjectIdentifier>) -> Seq<(Seq<char>, Option<Seq<char>>)> {
    Seq::new(s.len(), |i: int| s[i]@)
}

/// The message for a batch that is full.
pub open spec fn batch_full_message() -> Seq<char> {
    "delete_objects accepts at most 1000 objects"@
}

/// Adds `object` to a batch, unless the batch already names 1000 objects.
pub fn push_delete_object(objects: &mut Vec<DeleteObjectIdentifier>, object: DeleteObjectIdentifier) -> (r: Result<(), Error>)
    ensures
        r is Ok <==> old(objects)@.len() < MAX_DELETE_OBJECTS_PER_REQUEST,
        r is Ok ==> ids_view(final(objects)@) == ids_view(old(objects)@).push(object@),
        r is Err ==> final(objects)@ == old(objects)@,
        r matches Err(e) ==> is_config_error(e, batch_full_message()),
{
    if objects.len() >= MAX_DELETE_OBJECTS_PER_REQUEST {
        return Err(Error::invalid_config("delete_objects accepts at most 1000 objects"));
    }
    let ghost before = objects@;
    objects.push(object);
    proof {
        assert(ids_view(objects@) =~= ids_view(before).push(object@));
    }
    Ok(())
}

/// The XML element for one object of a batch delete.
pub open spec fn object_xml(o: (Seq<char>, Option<Seq<char>>)) -> Seq<char> {
    "<Object><Key>"@ + xml_escape(o.0) + "</Key>"@ + match o.1 {
        Some(v) => "<VersionId>"@ + xml_escape(v) + "</VersionId>"@,
        None => Seq::empty(),
    } + "</Object>"@
}

/// The XML elements for the objects of a batch delete, in order.
pub open spec fn objects_xml(s: Seq<(Seq<char>, Option<Seq<char>>)>) -> Seq<char>
    decreases s.len(),
{
    if s.len() == 0 {
        Seq::empty()
    } else {
        objects_xml(s.drop_last()) + object_xml(s.last())
    }
}

/// The XML body of a batch delete.
pub open spec fn delete_xml(s: Seq<(Seq<char>, Option<Seq<char>>)>, quiet: bool) -> Seq<char> {
    "<Delete>"@ + (if quiet {
        "<Quiet>true</Quiet>"@
    } else {
        Seq::empty()
    }) + objects_xml(s) + "</Delete>"@
}

/// Writes the XML body of a batch delete; a batch must name at least one object.
pub fn encode_delete_objects(objects: &Vec<DeleteObjectIdentifier>, quiet: bool) -> (r: Result<String, Error>)
    ensures
        r is Ok <==> objects@.len() > 0,
        r matches Ok(s) ==> s@ == delete_xml(ids_view(objects@), quiet),
        r matches Err(e) ==> is_config_error(e, "delete_objects requires at least one object"@),
{
    if objects.len() == 0 {
        return Err(Error::invalid_config("delete_objects requires at least one object"));
    }
    let mut out = String::from_str("<Delete>");
    if quiet {
        out.append("<Quiet>true</Quiet>");
    }
    let ghost head = out@;
    let n = objects.len();
    let mut i: usize = 0;
    while i < n
        invariant
            n == objects@.len(),
            i <= n,
            out@ == head + objects_xml(ids_view(objects@).take(i as int)),
        decreases n - i,
    {
        let o = &objects[i];
        let ghost before = out@;
        out.append("<Object><Key>");
        push_escaped(&mut out, o.key.as_str());
        out.append("</Key>");
        match &o.version_id {
            Some(v) => {
                out.append("<VersionId>");
                push_escaped(&mut out, v.as_str());
                out.append("</VersionId>");
            },
            None => {},
        }
        out.append("</Object>");
        proof {
            assert(ids_view(objects@)[i as int] == o@);
            assert(out@ =~= before + object_xml(o@));
            assert(ids_view(objects@).take(i + 1).drop_last() =~= ids_view(objects@).take(i as int));
        }
        i += 1;
    }
    out.append("</Delete>");
    proof {
        assert(ids_view(objects@).take(n as int) =~= ids_view(objects@));
        assert(out@ =~= delete_xml(ids_view(objects@), quiet));
    }
    Ok(out)
}

// ---------------------------------------------------------------- multipart parts

/// A part of a completed multipart upload: its number and ETag.
pub struct CompletedPart {
    part_number: u32,
    etag: HeaderText,
}

impl View for CompletedPart {
    type V = (u32, Seq<char>);

    closed spec fn view(&self) -> (u32, Seq<char>) {
        (self.part_number, self.etag@)
    }
}

impl CompletedPart {
    #[verifier::type_invariant]
    spec fn inv(self) -> bool {
        1 <= self.part_number <= MAX_PART_NUMBER
    }

    /// A part numbered 1 to 10000 whose ETag is a header value.
    pub fn new(part_number: u32, etag: &str) -> (r: Result<CompletedPart, Error>)
        ensures
            r is Ok <==> 1 <= part_number <= MAX_PART_NUMBER && is_header_value(etag@),
            r matches Ok(p) ==> p@ == (part_number, etag@),
            r matches Err(e) ==> is_config_error(
                e,
                if !(1 <= part_number <= MAX_PART_NUMBER) {
                    "part_number must be between 1 and 10000"@
                } else {
                    "invalid part etag"@
                },
            ),
    {
        if part_number == 0 || part_number > MAX_PART_NUMBER {
            return Err(Error::invalid_config("part_number must be between 1 and 10000"));
        }
        let etag = HeaderText::new(etag, "invalid part etag")?;
        Ok(CompletedPart { part_number, etag })
    }

    /// The part number, from 1 to 10000.
    pub fn part_number(&self) -> (n: u32)
        ensures
            n == self@.0,
            1 <= n <= MAX_PART_NUMBER,
    {
        proof {
            use_type_invariant(self);
        }
        self.part_number
    }

    /// The ETag.
    pub fn etag(&self) -> (s: &str)
        ensures
            s@ == self@.1,
            is_header_value(s@),
    {
        self.etag.as_str()
    }
}

/// The views of a list of parts.
pub open spec fn parts_view(s: Seq<CompletedPart>) -> Seq<(u32, Seq<char>)> {
    Seq::new(s.len(), |i: int| s[i]@)
}

/// No two parts share a number.
pub open spec fn unique_numbers(s: Seq<(u32, Seq<char>)>) -> bool {
    forall|i: int, j: int| 0 <= i < j < s.len() ==> #[trigger] s[i].0 != #[trigger] s[j].0
}

/// Some part is numbered `n`.
pub open spec fn has_number(s: Seq<(u32, Seq<char>)>, n: u32) -> bool {
    exists|i: int| 0 <= i < s.len() && #[trigger] s[i].0 == n
}

/// The parts are in strictly increasing order of number.
pub open spec fn strictly_sorted(s: Seq<(u32, Seq<char>)>) -> bool {
    forall|i: int, j: int| 0 <= i < j < s.len() ==> #[trigger] s[i].0 < #[trigger] s[j].0
}

/// Adds `part`, unless a part with its number is already present.
pub fn push_completed_part(parts: &mut Vec<CompletedPart>, part: CompletedPart) -> (r: Result<(), Error>)
    ensures
        r is Ok <==> !has_number(parts_view(old(parts)@), part@.0),
        r is Ok ==> parts_view(final(parts)@) == parts_view(old(parts)@).push(part@),
        r is Err ==> final(parts)@ == old(parts)@,
        r matches Err(e) ==> is_config_error(e, "part numbers must be unique"@),
{
    let n = parts.len();
    let number = part.part_number();
    let mut i: usize = 0;
    while i < n
        invariant
            n == parts@.len(),
            i <= n,
            parts@ == old(parts)@,
            number == part@.0,
            forall|j: int| 0 <= j < i ==> #[trigger] parts_view(parts@)[j].0 != number,
        decreases n - i,
    {
        if parts[i].part_number() == number {
            proof {
                assert(parts_view(parts@)[i as int].0 == number);
            }
            return Err(Error::invalid_config("part numbers must be unique"));
        }
        i += 1;
    }
    let ghost before = parts@;
    parts.push(part);
    proof {
        assert(parts_view(parts@) =~= parts_view(before).push(part@));
    }
    Ok(())
}

/// `out` holds the same parts as `input`, in strictly increasing order.
pub open spec fn sorted_permutation(input: Seq<(u32, Seq<char>)>, out: Seq<(u32, Seq<char>)>) -> bool {
    &&& out.len() == input.len()
    &&& strictly_sorted(out)
    &&& forall|i: int| 0 <= i < input.len() ==> out.contains(#[trigger] input[i])
    &&& forall|i: int| 0 <= i < out.len() ==> input.contains(#[trigger] out[i])
}

/// The order of a completion is fully determined: two orderings of the same
/// parts that are both strictly increasing by number are equal.
pub proof fn law_sorted_parts_are_determined(
    input: Seq<(u32, Seq<char>)>,
    a: Seq<(u32, Seq<char>)>,
    b: Seq<(u32, Seq<char>)>,
)
    requires
        sorted_permutation(input, a),
        sorted_permutation(input, b),
    ensures
        a == b,
{
    if a.len() > 0 {
        lemma_sorted_agree(input, a, b, a.len() - 1);
    }
    assert(a =~= b);
}

/// Two strictly sorted orderings of the same parts agree up to position `i`.
proof fn lemma_sorted_agree(input: Seq<(u32, Seq<char>)>, a: Seq<(u32, Seq<char>)>, b: Seq<(u32, Seq<char>)>, i: int)
    requires
        sorted_permutation(input, a),
        sorted_permutation(input, b),
        0 <= i < a.len(),
    ensures
        forall|k: int| 0 <= k <= i ==> a[k] == b[k],
    decreases i,
{
    if i > 0 {
        lemma_sorted_agree(input, a, b, i - 1);
    }
    // a[i] stands in b at some position j, and b[i] in a at some position j2.
    assert(input.contains(a[i]));
    let ia = choose|x: int| 0 <= x < input.len() && input[x] == a[i];
    assert(b.contains(input[ia]));
    let j = choose|x: int| 0 <= x < b.len() && b[x] == a[i];
    assert(input.contains(b[i]));
    let ib = choose|x: int| 0 <= x < input.len() && input[x] == b[i];
    assert(a.contains(input[ib]));
    let j2 = choose|x: int| 0 <= x < a.len() && a[x] == b[i];
    if j < i {
        assert(b[j] == a[j]);
        assert(a[j].0 < a[i].0);
    }
    if j2 < i {
        assert(a[j2] == b[j2]);
        assert(b[j2].0 < b[i].0);
    }
    if j > i && j2 > i {
        assert(b[i].0 < b[j].0);
        assert(a[i].0 < a[j2].0);
    }
}

/// Orders the parts by number for completion. A completion needs at least
/// one part, and no two parts may share a number.
pub fn prepare_completed_parts(parts: Vec<CompletedPart>) -> (r: Result<Vec<CompletedPart>, Error>)
    ensures
        r is Ok <==> parts@.len() > 0 && unique_numbers(parts_view(parts@)),
        r matches Ok(out) ==> sorted_permutation(parts_view(parts@), parts_view(out@)),
        r matches Err(e) ==> is_config_error(
            e,
            if parts@.len() == 0 {
                "complete_multipart_upload requires at least one part"@
            } else {
                "part numbers must be unique"@
            },
        ),
{
    let ghost input = parts_view(parts@);
    if parts.len() == 0 {
        return Err(Error::invalid_config("complete_multipart_upload requires at least one part"));
    }
    let mut rest = parts;
    let mut out: Vec<CompletedPart> = Vec::new();
    while rest.len() > 0
        invariant
            input.len() > 0,
            input == parts_view(parts@),
            parts@.len() > 0,
            parts_view(rest@) == input.take(rest@.len() as int),
            rest@.len() <= input.len(),
            strictly_sorted(parts_view(out@)),
            out@.len() + rest@.len() == input.len(),
            forall|i: int| rest@.len() <= i < input.len() ==> parts_view(out@).contains(#[trigger] input[i]),
            forall|i: int| 0 <= i < out@.len() ==> exists|j: int| rest@.len() <= j < input.len() && #[trigger] parts_view(out@)[i] == input[j],
            unique_numbers(input.subrange(rest@.len() as int, input.len() as int)),
        decreases rest@.len(),
    {
        let ghost k = (rest@.len() - 1) as int;
        let ghost old_rest = rest@;
        let part = rest.pop().unwrap();
        proof {
            assert(parts_view(old_rest)[k] == old_rest[k]@);
            assert(input.take(k + 1)[k] == input[k]);
            assert(part@ == input[k]);
            assert(parts_view(rest@) =~= input.take(k));
        }
        let number = part.part_number();
        // find the first position whose number is not below `number`
        let m = out.len();
        let mut pos: usize = 0;
        while pos < m && out[pos].part_number() < number
            invariant
                m == out@.len(),
                pos <= m,
                forall|j: int| 0 <= j < pos ==> #[trigger] parts_view(out@)[j].0 < number,
            decreases m - pos,
        {
            pos += 1;
        }
        if pos < m && out[pos].part_number() == number {
            proof {
                let ghost i2 = choose|j: int| rest@.len() + 1 <= j < input.len() && parts_view(out@)[pos as int] == input[j];
                assert(parts_view(out@)[pos as int] == input[i2]);
                assert(input[k].0 == input[i2].0);
                assert(k < i2);
                assert(!unique_numbers(input));
            }
            return Err(Error::invalid_config("part numbers must be unique"));
        }
        let ghost old_out = parts_view(out@);
        out.insert(pos, part);
        proof {
            let nv = parts_view(out@);
            assert(nv =~= old_out.insert(pos as int, input[k]));
            assert(strictly_sorted(nv)) by {
                assert forall|a: int, b: int| 0 <= a < b < nv.len() implies #[trigger] nv[a].0 < #[trigger] nv[b].0 by {
                    if b < pos {
                    } else if a < pos && b == pos {
                    } else if a < pos && b > pos {
                        assert(nv[b] == old_out[b - 1]);
                        if pos < m {
                            assert(old_out[pos as int].0 > number);
                            assert(old_out[b - 1].0 >= old_out[pos as int].0);
                        }
                    } else if a == pos {
                        assert(nv[b] == old_out[b - 1]);
                        assert(old_out[pos as int].0 > number);
                        if b - 1 > pos {
                            assert(old_out[b - 1].0 > old_out[pos as int].0);
                        }
                    } else {
                        assert(nv[a] == old_out[a - 1]);
                        assert(nv[b] == old_out[b - 1]);
                    }
                }
            }
            assert forall|i: int| k <= i < input.len() implies nv.contains(#[trigger] input[i]) by {
                if i == k {
                    assert(nv[pos as int] == input[k]);
                } else {
                    assert(old_out.contains(input[i]));
                    let w = choose|w: int| 0 <= w < old_out.len() && old_out[w] == input[i];
                    if w < pos {
                        assert(nv[w] == input[i]);
                    } else {
                        assert(nv[w + 1] == input[i]);
                    }
                }
            }
            assert forall|i: int| 0 <= i < nv.len() implies exists|j: int| k <= j < input.len() && #[trigger] nv[i] == input[j] by {
                if i == pos {
                    assert(nv[i] == input[k]);
                } else if i < pos {
                    assert(nv[i] == old_out[i]);
                } else {
                    assert(nv[i] == old_out[i - 1]);
                }
            }
            assert forall|a: int, b: int| 0 <= a < b < input.subrange(k, input.len() as int).len() implies
                #[trigger] input.subrange(k, input.len() as int)[a].0 != #[trigger] input.subrange(k, input.len() as int)[b].0 by {
                let sub = input.subrange(k, input.len() as int);
                let old_sub = input.subrange(k + 1, input.len() as int);
                if a == 0 {
                    assert(sub[a] == input[k]);
                    assert(sub[b] == input[k + b]);
                    assert(old_out.contains(input[k + b]));
                    let w = choose|w: int| 0 <= w < old_out.len() && old_out[w] == input[k + b];
                    if w < pos {
                        assert(old_out[w].0 < number);
                    } else {
                        if pos < m {
                            assert(old_out[pos as int].0 != number);
                            if w > pos {
                                assert(old_out[w].0 > old_out[pos as int].0);
                            }
                            assert(old_out[pos as int].0 > number);
                        }
                    }
                } else {
                    assert(sub[a] == old_sub[a - 1]);
                    assert(sub[b] == old_sub[b - 1]);
                }
            }
        }
    }
    proof {
        let ov = parts_view(out@);
        assert(input.subrange(0, input.len() as int) =~= input);
        assert forall|i: int| 0 <= i < ov.len() implies input.contains(#[trigger] ov[i]) by {
            let j = choose|j: int| 0 <= j < input.len() && ov[i] == input[j];
        }
    }
    Ok(out)
}

/// The XML element for one completed part.
pub open spec fn part_xml(p: (u32, Seq<char>)) -> Seq<char> {
    "<Part><PartNumber>"@ + decimal(p.0 as nat) + "</PartNumber><ETag>"@ + xml_escape(p.1)
        + "</ETag></Part>"@
}

/// The XML elements for the parts, in order.
pub open spec fn parts_xml(s: Seq<(u32, Seq<char>)>) -> Seq<char>
    decreases s.len(),
{
    if s.len() == 0 {
        Seq::empty()
    } else {
        parts_xml(s.drop_last()) + part_xml(s.last())
    }
}

/// The XML body that completes a multipart upload.
pub open spec fn complete_xml(s: Seq<(u32, Seq<char>)>) -> Seq<char> {
    "<CompleteMultipartUpload>"@ + parts_xml(s) + "</CompleteMultipartUpload>"@
}

/// Writes the XML body that completes a multipart upload.
pub fn encode_complete_multipart_upload(parts: &Vec<CompletedPart>) -> (s: String)
    ensures
        s@ == complete_xml(parts_view(parts@)),
{
    let mut out = String::from_str("<CompleteMultipartUpload>");
    let ghost head = out@;
    let n = parts.len();
    let mut i: usize = 0;
    while i < n
        invariant
            n == parts@.len(),
            i <= n,
            out@ == head + parts_xml(parts_view(parts@).take(i as int)),
        decreases n - i,
    {
        let p = &parts[i];
        let ghost before = out@;
        out.append("<Part><PartNumber>");
        push_decimal(&mut out, p.part_number() as u64);
        out.append("</PartNumber><ETag>");
        push_escaped(&mut out, p.etag());
        out.append("</ETag></Part>");
        proof {
            assert(parts_view(parts@)[i as int] == p@);
            assert(out@ =~= before + part_xml(p@));
            assert(parts_view(parts@).take(i + 1).drop_last() =~= parts_view(parts@).take(i as int));
        }
        i += 1;
    }
    out.append("</CompleteMultipartUpload>");
    proof {
        assert(parts_view(parts@).take(n as int) =~= parts_view(parts@));
        assert(out@ =~= complete_xml(parts_view(parts@)));
    }
    out
}

/// No `<` of an object's XML opens a `Quiet` element.
proof fn lemma_object_xml_has_no_quiet(o: (Seq<char>, Option<Seq<char>>))
    ensures
        lt_never_before(object_xml(o), 'Q'),
{
    reveal_strlit("<Object><Key>");
    reveal_strlit("</Key>");
    reveal_strlit("<VersionId>");
    reveal_strlit("</VersionId>");
    reveal_strlit("</Object>");
    assert(lt_never_before("<Object><Key>"@, 'Q'));
    assert(lt_never_before("</Key>"@, 'Q'));
    assert(lt_never_before("<VersionId>"@, 'Q'));
    assert(lt_never_before("</VersionId>"@, 'Q'));
    assert(lt_never_before("</Object>"@, 'Q'));
    lemma_escaped_lt_never_before(o.0, 'Q');
    lemma_lt_never_before_concat("<Object><Key>"@, xml_escape(o.0), 'Q');
    lemma_lt_never_before_concat("<Object><Key>"@ + xml_escape(o.0), "</Key>"@, 'Q');
    let v = match o.1 {
        Some(v) => "<VersionId>"@ + xml_escape(v) + "</VersionId>"@,
        None => Seq::<char>::empty(),
    };
    if let Some(x) = o.1 {
        lemma_escaped_lt_never_before(x, 'Q');
        lemma_lt_never_before_concat("<VersionId>"@, xml_escape(x), 'Q');
        lemma_lt_never_before_concat("<VersionId>"@ + xml_escape(x), "</VersionId>"@, 'Q');
    }
    lemma_lt_never_before_concat("<Object><Key>"@ + xml_escape(o.0) + "</Key>"@, v, 'Q');
    lemma_lt_never_before_concat("<Object><Key>"@ + xml_escape(o.0) + "</Key>"@ + v, "</Object>"@, 'Q');
}

/// No `<` of the objects' XML opens a `Quiet` element.
proof fn lemma_objects_xml_has_no_quiet(s: Seq<(Seq<char>, Option<Seq<char>>)>)
    ensures
        lt_never_before(objects_xml(s), 'Q'),
    decreases s.len(),
{
    if s.len() > 0 {
        lemma_objects_xml_has_no_quiet(s.drop_last());
        lemma_object_xml_has_no_quiet(s.last());
        lemma_lt_never_before_concat(objects_xml(s.drop_last()), object_xml(s.last()), 'Q');
    }
}

/// The batch-delete body asks for quiet mode exactly when quiet mode was
/// set: read as XML, it holds a `Quiet` element with the text `true` when
/// `quiet` holds, and no `Quiet` element otherwise, so that the service
/// lists every deleted object unless asked not to.
pub proof fn law_delete_body_quiet_only_when_asked(s: Seq<(Seq<char>, Option<Seq<char>>)>, quiet: bool)
    ensures
        ({
            let body = delete_xml(s, quiet);
            element_text_in(body, "Quiet"@, 0, body.len() as int) == if quiet {
                Some("true"@)
            } else {
                None::<Seq<char>>
            }
        }),
{
    reveal_strlit("<Delete>");
    reveal_strlit("<Quiet>true</Quiet>");
    reveal_strlit("</Delete>");
    reveal_strlit("Quiet");
    let body = delete_xml(s, quiet);
    lemma_objects_xml_has_no_quiet(s);
    assert(lt_never_before("<Delete>"@, 'Q'));
    assert(lt_never_before("</Delete>"@, 'Q'));
    if !quiet {
        assert(body =~= "<Delete>"@ + objects_xml(s) + "</Delete>"@);
        lemma_lt_never_before_concat("<Delete>"@, objects_xml(s), 'Q');
        lemma_lt_never_before_concat("<Delete>"@ + objects_xml(s), "</Delete>"@, 'Q');
        assert("Quiet"@[0] == 'Q');
        lemma_no_element(body, "Quiet"@, 0, body.len() as int);
    } else {
        let o = open_tag("Quiet"@);
        let c = close_tag("Quiet"@);
        assert(o =~= seq!['<', 'Q', 'u', 'i', 'e', 't', '>']);
        assert(c =~= seq!['<', '/', 'Q', 'u', 'i', 'e', 't', '>']);
        assert(body.subrange(8, 15) =~= o);
        assert forall|i: int| 0 <= i < 8 implies !occurs_at(body, o, i) by {
            if occurs_at(body, o, i) {
                assert(body.subrange(i, i + 7)[0] == body[i]);
                assert(body.subrange(i, i + 7)[1] == body[i + 1]);
            }
        }
        lemma_find_in_first(body, o, 0, body.len() as int, 8);
        assert(body.subrange(19, 27) =~= c);
        assert forall|i: int| 15 <= i < 19 implies !occurs_at(body, c, i) by {
            if occurs_at(body, c, i) {
                assert(body.subrange(i, i + 8)[0] == body[i]);
            }
        }
        lemma_find_in_first(body, c, 15, body.len() as int, 19);
        let t = body.subrange(15, 19);
        assert(t =~= seq!['t', 'r', 'u', 'e']);
        reveal_strlit("&amp;");
        reveal_strlit("&lt;");
        reveal_strlit("&gt;");
        reveal_strlit("&quot;");
        reveal_strlit("&apos;");
        reveal_strlit("true");
        assert(t.take(4)[0] != "&lt;"@[0]);
        assert(t.take(4)[0] != "&gt;"@[0]);
        assert(xml_unescape(t) == seq![t[0]] + xml_unescape(t.skip(1)));
        let t1 = t.skip(1);
        assert(t1.len() < 4);
        assert(xml_unescape(t1) == seq![t1[0]] + xml_unescape(t1.skip(1)));
        let t2 = t1.skip(1);
        assert(xml_unescape(t2) == seq![t2[0]] + xml_unescape(t2.skip(1)));
        let t3 = t2.skip(1);
        assert(xml_unescape(t3) == seq![t3[0]] + xml_unescape(t3.skip(1)));
        assert(t3.skip(1).len() == 0);
        assert(xml_unescape(t) =~= "true"@);
    }
}

} // verus!
