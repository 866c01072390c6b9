//! A minimal PDF writer: one page per poster sheet, each page drawing one
//! embedded JPEG with the content stream built for it, and a cross-reference
//! table whose offsets point at the objects.
use vstd::prelude::*;
use crate::decimal::{decimal_bytes, padded_decimal_bytes, write_decimal, write_padded_decimal};
use vstd::string::StringSliceAdditionalSpecFns;
use vstd::utf8::encode_utf8;

verus! {

/// One page of a document: its content stream (drawing commands) and the JPEG
/// image that the stream draws as `/Im0`, with the image's size in pixels.
pub struct PageChunk {
    pub content: String,
    pub image: Vec<u8>,
    pub image_w: u32,
    pub image_h: u32,
}

/// A page as plain values: content bytes, image bytes, width, height.
pub open spec fn chunk_view(p: PageChunk) -> (Seq<u8>, Seq<u8>, u32, u32) {
    (encode_utf8(p.content@), p.image@, p.image_w, p.image_h)
}

/// All pages as plain values.
pub open spec fn chunks_view(pages: Seq<PageChunk>) -> Seq<(Seq<u8>, Seq<u8>, u32, u32)> {
    pages.map_values(|p: PageChunk| chunk_view(p))
}

/// The bytes of the text `s`.
pub open spec fn text(s: &str) -> Seq<u8> {
    s.spec_bytes()
}

/// The decimal numeral of `n` as bytes.
pub open spec fn num(n: int) -> Seq<u8> {
    decimal_bytes(n as nat)
}

/// A stream object holding `data`.
pub open spec fn stream_object_bytes(data: Seq<u8>) -> Seq<u8> {
    text("<< /Length ") + num(data.len() as int) + text(" >>\nstream\n") + data + text(
        "\nendstream",
    )
}

/// The document catalog (object 1).
pub open spec fn catalog_bytes() -> Seq<u8> {
    text("<< /Type /Catalog /Pages 2 0 R >>")
}

/// The object number of the page dictionary of page `i` (counting from 0).
pub open spec fn page_object_number(i: int) -> int {
    3 + 3 * i
}

/// The references to the first `n` page dictionaries: `3 0 R 6 0 R ...`.
pub open spec fn kids_bytes(n: nat) -> Seq<u8>
    decreases n,
{
    if n == 0 {
        Seq::empty()
    } else {
        kids_bytes((n - 1) as nat) + num(page_object_number(n - 1)) + text(" 0 R ")
    }
}

/// The page tree (object 2) for `n` pages.
pub open spec fn page_tree_bytes(n: nat) -> Seq<u8> {
    text("<< /Type /Pages /Kids [") + kids_bytes(n) + text("] /Count ") + num(n as int) + text(
        " >>",
    )
}

/// The page dictionary of page `i` on a sheet of `w` by `h` points (written as
/// text): its content stream and its image are the two objects after it.
pub open spec fn page_dict_bytes(i: int, w: Seq<u8>, h: Seq<u8>) -> Seq<u8> {
    text("<< /Type /Page /Parent ") + num(2) + text(" 0 R /MediaBox [0 0 ") + w + text(" ") + h
        + text("] /Resources << /XObject << /Im0 ") + num(page_object_number(i) + 2) + text(
        " 0 R >> /ExtGState << /GS50 << /Type /ExtGState /CA 0.5 /ca 0.5 >> /GS60 << /Type /ExtGState /CA 0.6 /ca 0.6 >> >> >> /Contents ",
    ) + num(page_object_number(i) + 1) + text(" 0 R >>")
}

/// The image object of a page: a JPEG of `w` by `h` pixels.
pub open spec fn image_object_bytes(image: Seq<u8>, w: u32, h: u32) -> Seq<u8> {
    text("<< /Type /XObject /Subtype /Image /Width ") + num(w as int) + text(" /Height ") + num(
        h as int,
    ) + text(" /ColorSpace /DeviceRGB /BitsPerComponent 8 /Filter /DCTDecode /Length ") + num(
        image.len() as int,
    ) + text(" >>\nstream\n") + image + text("\nendstream")
}

/// The three objects of each page, in page order: dictionary, content
/// stream, image.
pub open spec fn page_objects(w: Seq<u8>, h: Seq<u8>, pages: Seq<(Seq<u8>, Seq<u8>, u32, u32)>) -> Seq<
    Seq<u8>,
>
    decreases pages.len(),
{
    if pages.len() == 0 {
        Seq::empty()
    } else {
        let i = pages.len() - 1;
        let p = pages[i];
        page_objects(w, h, pages.drop_last()) + seq![
            page_dict_bytes(i, w, h),
            stream_object_bytes(p.0),
            image_object_bytes(p.1, p.2, p.3),
        ]
    }
}

/// All objects of the document, object `k` at index `k - 1`.
pub open spec fn document_objects(
    w: Seq<u8>,
    h: Seq<u8>,
    pages: Seq<(Seq<u8>, Seq<u8>, u32, u32)>,
) -> Seq<Seq<u8>> {
    seq![catalog_bytes(), page_tree_bytes(pages.len())] + page_objects(w, h, pages)
}

/// The file header: the version line and a comment of four high bytes.
pub open spec fn header_bytes() -> Seq<u8> {
    text("%PDF-1.4\n") + seq![37u8, 0xE2u8, 0xE3u8, 0xCFu8, 0xD3u8, 10u8]
}

/// The opening line of object number `k`.
pub open spec fn object_start(k: int) -> Seq<u8> {
    num(k) + text(" 0 obj\n")
}

/// Object number `k` with its body `obj`, as it stands in the file.
pub open spec fn object_entry(k: int, obj: Seq<u8>) -> Seq<u8> {
    object_start(k) + obj + text("\nendobj\n")
}

/// The objects `objs` written one after another, numbered from 1.
pub open spec fn body_bytes(objs: Seq<Seq<u8>>) -> Seq<u8>
    decreases objs.len(),
{
    if objs.len() == 0 {
        Seq::empty()
    } else {
        body_bytes(objs.drop_last()) + object_entry(objs.len() as int, objs.last())
    }
}

/// Where object number `k + 1` starts in the file.
pub open spec fn object_offset(objs: Seq<Seq<u8>>, k: int) -> int {
    (header_bytes().len() + body_bytes(objs.take(k)).len()) as int
}

/// The in-use rows of the cross-reference table for the first `k` objects.
pub open spec fn xref_rows(objs: Seq<Seq<u8>>, k: int) -> Seq<u8>
    decreases k,
{
    if k <= 0 {
        Seq::empty()
    } else {
        xref_rows(objs, k - 1) + padded_decimal_bytes(object_offset(objs, k - 1) as nat) + text(
            " 00000 n \n",
        )
    }
}

/// The cross-reference table and trailer for `objs`, the table starting at
/// byte `xref`.
pub open spec fn xref_and_trailer(objs: Seq<Seq<u8>>, xref: int) -> Seq<u8> {
    text("xref\n0 ") + num(objs.len() + 1int) + text("\n0000000000 65535 f \n") + xref_rows(
        objs,
        objs.len() as int,
    ) + text("trailer\n<< /Size ") + num(objs.len() + 1int) + text(" /Root 1 0 R >>\nstartxref\n")
        + num(xref) + text("\n%%EOF\n")
}

/// The file that holds the objects `objs`.
pub open spec fn file_bytes(objs: Seq<Seq<u8>>) -> Seq<u8> {
    let prefix = header_bytes() + body_bytes(objs);
    prefix + xref_and_trailer(objs, prefix.len() as int)
}

/// The PDF document for `pages` on sheets of `w` by `h` points.
pub open spec fn pdf_bytes(w: Seq<u8>, h: Seq<u8>, pages: Seq<(Seq<u8>, Seq<u8>, u32, u32)>) -> Seq<
    u8,
> {
    file_bytes(document_objects(w, h, pages))
}

/// Appends the bytes of `s`.
fn push_text(out: &mut Vec<u8>, s: &str)
    ensures
        final(out)@ == old(out)@ + text(s),
{
    push_bytes(out, s.as_bytes());
}

/// Appends `data`.
fn push_bytes(out: &mut Vec<u8>, data: &[u8])
    ensures
        final(out)@ == old(out)@ + data@,
{
    let ghost start = out@;
    let mut i: usize = 0;
    while i < data.len()
        invariant
            i <= data@.len(),
            out@ == start + data@.take(i as int),
        decreases data@.len() - i,
    {
        out.push(data[i]);
        i = i + 1;
        assert(out@ =~= start + data@.take(i as int));
    }
    assert(data@.take(i as int) =~= data@);
}

/// Appends the decimal numeral of `n`.
fn push_num(out: &mut Vec<u8>, n: u64)
    ensures
        final(out)@ == old(out)@ + num(n as int),
{
    let d = write_decimal(n);
    push_bytes(out, d.as_slice());
}

/// A stream object holding `data`: its length, then the data between
/// `stream` and `endstream`.
pub fn stream_object(data: &[u8]) -> (r: Vec<u8>)
    ensures
        r@ == stream_object_bytes(data@),
{
    let mut out: Vec<u8> = Vec::new();
    push_text(&mut out, "<< /Length ");
    push_num(&mut out, data.len() as u64);
    push_text(&mut out, " >>\nstream\n");
    push_bytes(&mut out, data);
    push_text(&mut out, "\nendstream");
    assert(out@ =~= stream_object_bytes(data@));
    out
}

/// The objects as plain byte sequences.
pub open spec fn objects_view(objs: Seq<Vec<u8>>) -> Seq<Seq<u8>> {
    objs.map_values(|v: Vec<u8>| v@)
}

/// The page objects of one more page come after those of the pages before it.
proof fn lemma_page_objects_step(w: Seq<u8>, h: Seq<u8>, pages: Seq<(Seq<u8>, Seq<u8>, u32, u32)>, i: int)
    requires
        0 <= i < pages.len(),
    ensures
        page_objects(w, h, pages.take(i + 1)) == page_objects(w, h, pages.take(i)) + seq![
            page_dict_bytes(i, w, h),
            stream_object_bytes(pages[i].0),
            image_object_bytes(pages[i].1, pages[i].2, pages[i].3),
        ],
{
    assert(pages.take(i + 1).drop_last() =~= pages.take(i));
}

/// Pushing three objects appends their bytes.
proof fn lemma_push_three(before: Seq<Vec<u8>>, a: Vec<u8>, b: Vec<u8>, c: Vec<u8>)
    ensures
        objects_view(before.push(a).push(b).push(c)) == objects_view(before) + seq![a@, b@, c@],
{
    assert(objects_view(before.push(a).push(b).push(c)) =~= objects_view(before) + seq![a@, b@, c@]);
}

/// The page tree for `n` pages.
fn page_tree(n: usize) -> (r: Vec<u8>)
    requires
        3 * n + 3 <= usize::MAX,
    ensures
        r@ == page_tree_bytes(n as nat),
{
    let mut out: Vec<u8> = Vec::new();
    push_text(&mut out, "<< /Type /Pages /Kids [");
    let ghost start = out@;
    let mut i: usize = 0;
    while i < n
        invariant
            i <= n,
            3 * n + 3 <= usize::MAX,
            out@ == start + kids_bytes(i as nat),
        decreases n - i,
    {
        push_num(&mut out, (3 + 3 * i) as u64);
        push_text(&mut out, " 0 R ");
        i = i + 1;
        assert(out@ =~= start + kids_bytes(i as nat));
    }
    push_text(&mut out, "] /Count ");
    push_num(&mut out, n as u64);
    push_text(&mut out, " >>");
    assert(out@ =~= page_tree_bytes(n as nat));
    out
}

/// The page dictionary of page `i`.
fn page_dict(i: usize, page_w: &str, page_h: &str) -> (r: Vec<u8>)
    requires
        3 * i + 5 <= usize::MAX,
    ensures
        r@ == page_dict_bytes(i as int, text(page_w), text(page_h)),
{
    let mut out: Vec<u8> = Vec::new();
    push_text(&mut out, "<< /Type /Page /Parent ");
    push_num(&mut out, 2);
    push_text(&mut out, " 0 R /MediaBox [0 0 ");
    push_text(&mut out, page_w);
    push_text(&mut out, " ");
    push_text(&mut out, page_h);
    push_text(&mut out, "] /Resources << /XObject << /Im0 ");
    push_num(&mut out, (3 + 3 * i + 2) as u64);
    push_text(
        &mut out,
        " 0 R >> /ExtGState << /GS50 << /Type /ExtGState /CA 0.5 /ca 0.5 >> /GS60 << /Type /ExtGState /CA 0.6 /ca 0.6 >> >> >> /Contents ",
    );
    push_num(&mut out, (3 + 3 * i + 1) as u64);
    push_text(&mut out, " 0 R >>");
    assert(out@ =~= page_dict_bytes(i as int, text(page_w), text(page_h)));
    out
}

/// The image object of a page.
fn image_object(p: &PageChunk) -> (r: Vec<u8>)
    ensures
        r@ == image_object_bytes(p.image@, p.image_w, p.image_h),
{
    let mut out: Vec<u8> = Vec::new();
    push_text(&mut out, "<< /Type /XObject /Subtype /Image /Width ");
    push_num(&mut out, p.image_w as u64);
    push_text(&mut out, " /Height ");
    push_num(&mut out, p.image_h as u64);
    push_text(&mut out, " /ColorSpace /DeviceRGB /BitsPerComponent 8 /Filter /DCTDecode /Length ");
    push_num(&mut out, p.image.len() as u64);
    push_text(&mut out, " >>\nstream\n");
    push_bytes(&mut out, p.image.as_slice());
    push_text(&mut out, "\nendstream");
    assert(out@ =~= image_object_bytes(p.image@, p.image_w, p.image_h));
    out
}

/// All objects of the document for `pages` on sheets of `page_w` by `page_h`.
fn document_objects_of(page_w: &str, page_h: &str, pages: &Vec<PageChunk>) -> (objs: Vec<Vec<u8>>)
    requires
        3 * pages@.len() + 5 <= usize::MAX,
    ensures
        objects_view(objs@) == document_objects(text(page_w), text(page_h), chunks_view(pages@)),
        objs@.len() == 3 * pages@.len() + 2,
{
    let ghost w = text(page_w);
    let ghost h = text(page_h);
    let ghost cv = chunks_view(pages@);
    let mut objs: Vec<Vec<u8>> = Vec::new();
    let mut catalog: Vec<u8> = Vec::new();
    push_text(&mut catalog, "<< /Type /Catalog /Pages 2 0 R >>");
    objs.push(catalog);
    objs.push(page_tree(pages.len()));
    let ghost head = seq![catalog_bytes(), page_tree_bytes(pages@.len())];
    assert(objects_view(objs@) =~= head + page_objects(w, h, cv.take(0)));
    let mut i: usize = 0;
    while i < pages.len()
        invariant
            i <= pages@.len(),
            3 * pages@.len() + 5 <= usize::MAX,
            cv == chunks_view(pages@),
            w == text(page_w),
            h == text(page_h),
            head == seq![catalog_bytes(), page_tree_bytes(pages@.len())],
            objects_view(objs@) == head + page_objects(w, h, cv.take(i as int)),
            objs@.len() == 3 * i + 2,
        decreases pages@.len() - i,
    {
        let p = &pages[i];
        let ghost before = objs@;
        let d = page_dict(i, page_w, page_h);
        let st = stream_object(p.content.as_str().as_bytes());
        let im = image_object(p);
        proof {
            lemma_page_objects_step(w, h, cv, i as int);
            assert(cv[i as int] == chunk_view(pages@[i as int]));
            lemma_push_three(before, d, st, im);
        }
        objs.push(d);
        objs.push(st);
        objs.push(im);
        i = i + 1;
    }
    assert(cv.take(i as int) =~= cv);
    objs
}

/// The body up to one more object is the body before it followed by that object.
proof fn lemma_body_step(objs: Seq<Seq<u8>>, k: int)
    requires
        0 <= k < objs.len(),
    ensures
        body_bytes(objs.take(k + 1)) == body_bytes(objs.take(k)) + object_entry(k + 1, objs[k]),
{
    assert(objs.take(k + 1).drop_last() =~= objs.take(k));
}

/// Writes the header and the numbered objects, and tells where each object
/// starts.
fn write_body(objs: &Vec<Vec<u8>>) -> (r: (Vec<u8>, Vec<usize>))
    ensures
        r.0@ == header_bytes() + body_bytes(objects_view(objs@)),
        r.1@.len() == objs@.len(),
        forall|j: int|
            0 <= j < objs@.len() ==> r.1@[j] as int == object_offset(objects_view(objs@), j),
{
    let ghost ov = objects_view(objs@);
    let mut out: Vec<u8> = Vec::new();
    push_text(&mut out, "%PDF-1.4\n");
    out.push(37u8);
    out.push(0xE2u8);
    out.push(0xE3u8);
    out.push(0xCFu8);
    out.push(0xD3u8);
    out.push(10u8);
    assert(out@ =~= header_bytes());
    let mut offsets: Vec<usize> = Vec::new();
    let mut k: usize = 0;
    assert(ov.take(0) =~= Seq::<Seq<u8>>::empty());
    while k < objs.len()
        invariant
            k <= objs@.len(),
            ov == objects_view(objs@),
            out@ == header_bytes() + body_bytes(ov.take(k as int)),
            offsets@.len() == k,
            forall|j: int| 0 <= j < k ==> offsets@[j] as int == object_offset(ov, j),
        decreases objs@.len() - k,
    {
        proof {
            lemma_body_step(ov, k as int);
        }
        offsets.push(out.len());
        push_num(&mut out, (k + 1) as u64);
        push_text(&mut out, " 0 obj\n");
        push_bytes(&mut out, objs[k].as_slice());
        push_text(&mut out, "\nendobj\n");
        assert(ov[k as int] == objs@[k as int]@);
        k = k + 1;
        assert(out@ =~= header_bytes() + body_bytes(ov.take(k as int)));
    }
    assert(ov.take(k as int) =~= ov);
    (out, offsets)
}

/// Appends the in-use rows of the cross-reference table, one per offset.
fn push_xref_rows(out: &mut Vec<u8>, offsets: &Vec<usize>, Ghost(ov): Ghost<Seq<Seq<u8>>>)
    requires
        offsets@.len() == ov.len(),
        forall|m: int| 0 <= m < ov.len() ==> offsets@[m] as int == object_offset(ov, m),
    ensures
        final(out)@ == old(out)@ + xref_rows(ov, ov.len() as int),
{
    let ghost table_start = out@;
    let mut j: usize = 0;
    while j < offsets.len()
        invariant
            j <= offsets@.len(),
            offsets@.len() == ov.len(),
            forall|m: int| 0 <= m < ov.len() ==> offsets@[m] as int == object_offset(ov, m),
            out@ == table_start + xref_rows(ov, j as int),
        decreases offsets@.len() - j,
    {
        let row = write_padded_decimal(offsets[j] as u64);
        push_bytes(out, row.as_slice());
        push_text(out, " 00000 n \n");
        j = j + 1;
        assert(out@ =~= table_start + xref_rows(ov, j as int));
    }
}

/// Writes the header, the numbered objects, the cross-reference table and the
/// trailer.
fn write_file(objs: &Vec<Vec<u8>>) -> (r: Vec<u8>)
    requires
        objs@.len() < usize::MAX,
    ensures
        r@ == file_bytes(objects_view(objs@)),
{
    let ghost ov = objects_view(objs@);
    let (mut out, offsets) = write_body(objs);
    let xref = out.len();
    let ghost prefix = out@;
    push_text(&mut out, "xref\n0 ");
    push_num(&mut out, (objs.len() + 1) as u64);
    push_text(&mut out, "\n0000000000 65535 f \n");
    push_xref_rows(&mut out, &offsets, Ghost(ov));
    push_text(&mut out, "trailer\n<< /Size ");
    push_num(&mut out, (objs.len() + 1) as u64);
    push_text(&mut out, " /Root 1 0 R >>\nstartxref\n");
    push_num(&mut out, xref as u64);
    push_text(&mut out, "\n%%EOF\n");
    assert(out@ =~= prefix + xref_and_trailer(ov, prefix.len() as int));
    out
}

/// The PDF document for `pages`, every page `page_w` by `page_h` points (the
/// sizes written as the text that goes into `/MediaBox`). Object 1 is the
/// catalog, object 2 the page tree, and page `i` has its dictionary, content
/// stream and image as objects `3i + 3`, `3i + 4` and `3i + 5`.
pub fn write_pdf(page_w: &str, page_h: &str, pages: &Vec<PageChunk>) -> (r: Vec<u8>)
    requires
        3 * pages@.len() + 5 <= usize::MAX,
    ensures
        r@ == pdf_bytes(text(page_w), text(page_h), chunks_view(pages@)),
{
    let objs = document_objects_of(page_w, page_h, pages);
    write_file(&objs)
}

/// `a` is a prefix of `b`.
pub open spec fn is_prefix_of(a: Seq<u8>, b: Seq<u8>) -> bool {
    a.len() <= b.len() && b.subrange(0, a.len() as int) == a
}

/// The body of fewer objects is a prefix of the body of more.
proof fn lemma_body_prefix(objs: Seq<Seq<u8>>, k: int, j: int)
    requires
        0 <= k <= j <= objs.len(),
    ensures
        is_prefix_of(body_bytes(objs.take(k)), body_bytes(objs.take(j))),
    decreases j - k,
{
    if k == j {
        assert(body_bytes(objs.take(j)).subrange(0, body_bytes(objs.take(k)).len() as int)
            =~= body_bytes(objs.take(k)));
    } else {
        lemma_body_prefix(objs, k, j - 1);
        lemma_body_step(objs, j - 1);
        let a = body_bytes(objs.take(k));
        let b = body_bytes(objs.take(j - 1));
        let c = body_bytes(objs.take(j));
        assert(c.subrange(0, a.len() as int) =~= b.subrange(0, a.len() as int));
    }
}

/// Every offset in the cross-reference table points at the line that opens
/// its object: object `k + 1` starts with `k+1 0 obj` at `object_offset(objs, k)`,
/// and that offset is the `k + 1`-th in-use row of the table.
pub proof fn law_xref_offsets_point_at_objects(objs: Seq<Seq<u8>>, k: int)
    requires
        0 <= k < objs.len(),
    ensures
        ({
            let f = file_bytes(objs);
            let off = object_offset(objs, k);
            let start = object_start(k + 1);
            &&& 0 <= off
            &&& off + start.len() <= f.len()
            &&& f.subrange(off, off + start.len()) == start
        }),
        xref_rows(objs, k + 1) == xref_rows(objs, k) + padded_decimal_bytes(
            object_offset(objs, k) as nat,
        ) + text(" 00000 n \n"),
{
    let f = file_bytes(objs);
    let off = object_offset(objs, k);
    let start = object_start(k + 1);
    lemma_body_prefix(objs, k + 1, objs.len() as int);
    lemma_body_step(objs, k);
    assert(objs.take(objs.len() as int) =~= objs);
    let h = header_bytes();
    let bk = body_bytes(objs.take(k));
    let bk1 = body_bytes(objs.take(k + 1));
    let body = body_bytes(objs);
    assert(bk1 == bk + start + objs[k] + text("\nendobj\n"));
    assert(body.subrange(0, bk1.len() as int) == bk1);
    assert forall|i: int| 0 <= i < start.len() implies f.subrange(off, off + start.len())[i]
        == start[i] by {
        assert(f[off + i] == body[bk.len() + i]);
        assert(body[bk.len() + i] == bk1[bk.len() + i]);
        assert(bk1[bk.len() + i] == start[i]);
    }
    assert(f.subrange(off, off + start.len()) =~= start);
}

/// The number after `startxref` is the position where the `xref` keyword
/// that opens the cross-reference table stands.
pub proof fn law_startxref_points_at_table(objs: Seq<Seq<u8>>)
    ensures
        ({
            let f = file_bytes(objs);
            let pos = header_bytes().len() + body_bytes(objs).len();
            let kw = text("xref\n0 ");
            &&& pos + kw.len() <= f.len()
            &&& f.subrange(pos as int, (pos + kw.len()) as int) == kw
            &&& xref_and_trailer(objs, pos as int) == f.subrange(pos as int, f.len() as int)
        }),
{
    let f = file_bytes(objs);
    let prefix = header_bytes() + body_bytes(objs);
    let pos = prefix.len();
    let rest = xref_and_trailer(objs, pos as int);
    assert(f == prefix + rest);
    assert(f.subrange(pos as int, f.len() as int) =~= rest);
    let kw = text("xref\n0 ");
    assert(f.subrange(pos as int, (pos + kw.len()) as int) =~= rest.subrange(0, kw.len() as int));
    assert(rest.subrange(0, kw.len() as int) =~= kw);
}

/// The page objects for `n` pages are three per page.
proof fn lemma_page_objects_len(w: Seq<u8>, h: Seq<u8>, pages: Seq<(Seq<u8>, Seq<u8>, u32, u32)>)
    ensures
        page_objects(w, h, pages).len() == 3 * pages.len(),
    decreases pages.len(),
{
    if pages.len() > 0 {
        lemma_page_objects_len(w, h, pages.drop_last());
    }
}

/// The three objects of page `i` sit at indices `3i`, `3i + 1` and `3i + 2` of
/// the page objects.
proof fn lemma_page_objects_index(
    w: Seq<u8>,
    h: Seq<u8>,
    pages: Seq<(Seq<u8>, Seq<u8>, u32, u32)>,
    i: int,
)
    requires
        0 <= i < pages.len(),
    ensures
        page_objects(w, h, pages)[3 * i] == page_dict_bytes(i, w, h),
        page_objects(w, h, pages)[3 * i + 1] == stream_object_bytes(pages[i].0),
        page_objects(w, h, pages)[3 * i + 2] == image_object_bytes(pages[i].1, pages[i].2, pages[i].3),
    decreases pages.len(),
{
    let n = pages.len() - 1;
    lemma_page_objects_len(w, h, pages.drop_last());
    if i < n {
        lemma_page_objects_index(w, h, pages.drop_last(), i);
    }
}

/// Every object number that the document refers to names the object it is
/// meant to: object 2 is the page tree counting all pages, and for each page
/// `i` the tree lists object `3i + 3`, which is the page's dictionary; that
/// dictionary names object `3i + 4` as its contents, which is the stream of the
/// page's drawing commands, and object `3i + 5` as `/Im0`, which is the page's
/// image. Object `k` sits at index `k - 1`.
pub proof fn law_page_references_resolve(
    w: Seq<u8>,
    h: Seq<u8>,
    pages: Seq<(Seq<u8>, Seq<u8>, u32, u32)>,
    i: int,
)
    requires
        0 <= i < pages.len(),
    ensures
        ({
            let objs = document_objects(w, h, pages);
            &&& objs.len() == 3 * pages.len() + 2
            &&& objs[0] == catalog_bytes()
            &&& objs[1] == page_tree_bytes(pages.len())
            &&& page_object_number(i) == 3 * i + 3
            &&& objs[3 * i + 2] == page_dict_bytes(i, w, h)
            &&& objs[3 * i + 3] == stream_object_bytes(pages[i].0)
            &&& objs[3 * i + 4] == image_object_bytes(pages[i].1, pages[i].2, pages[i].3)
        }),
{
    lemma_page_objects_len(w, h, pages);
    lemma_page_objects_index(w, h, pages, i);
}

/// Each page's reference in the page tree: the list of the first `n + 1`
/// references is that of the first `n` followed by `3n + 3 0 R `.
proof fn lemma_kids_step(n: nat)
    ensures
        kids_bytes(n + 1) == kids_bytes(n) + decimal_bytes((3 + 3 * n) as nat) + text(" 0 R "),
{
    assert(((n + 1) - 1) as nat == n);
}

/// The references to the first `i` pages stand, unchanged, at the head of the
/// references to the first `n` pages, for `i <= n`.
proof fn lemma_kids_prefix(i: nat, n: nat)
    requires
        i <= n,
    ensures
        kids_bytes(i).len() <= kids_bytes(n).len(),
        kids_bytes(n).subrange(0, kids_bytes(i).len() as int) == kids_bytes(i),
    decreases n - i,
{
    if i == n {
        assert(kids_bytes(n).subrange(0, kids_bytes(n).len() as int) =~= kids_bytes(n));
    } else {
        lemma_kids_prefix(i, (n - 1) as nat);
        let m = (n - 1) as nat;
        lemma_kids_step(m);
        let a = kids_bytes(m);
        let b = kids_bytes(n);
        assert(b.subrange(0, a.len() as int) =~= a);
        assert(b.subrange(0, kids_bytes(i).len() as int) =~= a.subrange(
            0,
            kids_bytes(i).len() as int,
        ));
    }
}

/// The page tree lists every page once, in page order: its `/Kids` array holds,
/// for each page `i`, the reference `3i + 3 0 R` to that page's dictionary, the
/// reference of page `i` standing right after those of pages `0` to `i - 1`; no
/// reference stands before the first page's, and `/Count` is the number of
/// pages.
pub proof fn law_page_tree_lists_every_page(n: nat, i: nat)
    requires
        i < n,
    ensures
        kids_bytes(0) == Seq::<u8>::empty(),
        page_tree_bytes(n) == text("<< /Type /Pages /Kids [") + kids_bytes(n) + text("] /Count ")
            + decimal_bytes(n) + text(" >>"),
        kids_bytes(i + 1) == kids_bytes(i) + decimal_bytes((3 + 3 * i) as nat) + text(" 0 R "),
        kids_bytes(i + 1).len() <= kids_bytes(n).len(),
        kids_bytes(n).subrange(0, kids_bytes(i + 1).len() as int) == kids_bytes(i)
            + decimal_bytes((3 + 3 * i) as nat) + text(" 0 R "),
{
    lemma_kids_step(i);
    lemma_kids_prefix(i + 1, n);
}

} // verus!
