//! The DOCX package: a ZIP archive holding the content types, the package
//! relationships and the document.

use crate::docx::{build_document_xml, document_xml};
use std::io::{Cursor, Write};
use vstd::prelude::*;
use vstd::utf8::{decode_utf8, encode_utf8, encode_utf8_decode_utf8, valid_utf8, encode_utf8_valid_utf8};
use zip::result::ZipError;
use zip::write::SimpleFileOptions;
use zip::{CompressionMethod, System, ZipWriter};

verus! {

#[verifier::external_type_specification]
#[verifier::external_body]
pub struct ExZipError(ZipError);

#[verifier::external_type_specification]
#[verifier::external_body]
pub struct ExIoError(std::io::Error);

/// A ZIP archive being written into memory. The `zip` crate's writer is held
/// in a private field; the archive is described by `archive_entries` and
/// `archive_ready`.
#[verifier::external_body]
pub struct ArchiveWriter {
    writer: ZipWriter<Cursor<Vec<u8>>>,
}

/// The entries of an archive, in the order they were added: each with its
/// name, whether it is a directory, and the non-empty pieces of data written
/// to it, one per call of `archive_write_all`.
pub uninterp spec fn archive_entries(archive: ArchiveWriter) -> Seq<(Seq<char>, bool, Seq<Seq<u8>>)>;

/// Every call made on the archive so far has succeeded. While that holds,
/// the writer's state is the one that `archive_entries` describes: the last
/// entry is the one that writes go to when it is a file.
pub uninterp spec fn archive_ready(archive: ArchiveWriter) -> bool;

/// The number of bytes in the pieces of data of one entry.
pub open spec fn data_len(pieces: Seq<Seq<u8>>) -> nat
    decreases pieces.len(),
{
    if pieces.len() == 0 {
        0
    } else {
        data_len(pieces.drop_last()) + pieces.last().len()
    }
}

/// The number of data bytes of all entries.
pub open spec fn archive_data_len(entries: Seq<(Seq<char>, bool, Seq<Seq<u8>>)>) -> nat
    decreases entries.len(),
{
    if entries.len() == 0 {
        0
    } else {
        archive_data_len(entries.drop_last()) + data_len(entries.last().2)
    }
}

/// Some entry is named `name`.
pub open spec fn has_entry_named(entries: Seq<(Seq<char>, bool, Seq<Seq<u8>>)>, name: Seq<char>) -> bool {
    exists|i: int| 0 <= i < entries.len() && #[trigger] entries[i].0 == name
}

/// Limits well inside what the `zip` crate writes without its ZIP64 and
/// large-file options: fewer than a thousand entries and less than 2 GiB of
/// data in all, so that no entry, compressed or not, nor any offset reaches
/// 4 GiB.
pub open spec fn within_limits(entries: Seq<(Seq<char>, bool, Seq<Seq<u8>>)>) -> bool {
    entries.len() < 1000 && archive_data_len(entries) < 0x8000_0000
}

/// A name that fits a local header: its UTF-8 form is shorter than a thousand
/// bytes, well below the crate's 64 KiB bound on a header with its name.
pub open spec fn short_name(name: Seq<char>) -> bool {
    encode_utf8(name).len() < 1000
}

/// The bytes that `ZipWriter::finish` produces for an archive holding
/// `entries`, written as this module writes them: files deflated, directories
/// stored, every entry marked as made on Unix (the system is set in the
/// options, so the crate does not pick it from the target it was built for),
/// and the `zip` crate built without its `time` feature so that every entry
/// carries the crate's default timestamp.
pub uninterp spec fn finished_archive(entries: Seq<(Seq<char>, bool, Seq<Seq<u8>>)>) -> Seq<u8>;

/// The name that `ZipWriter::add_directory` gives a directory: a `/` is
/// appended unless the name already ends with `/` or `\`.
pub open spec fn directory_name(name: Seq<char>) -> Seq<char> {
    if name.len() > 0 && (name.last() == '/' || name.last() == '\\') {
        name
    } else {
        name.push('/')
    }
}

/// `ZipWriter::new` over an empty in-memory buffer: the archive starts with
/// no entries.
#[verifier::external_body]
fn archive_new() -> (r: ArchiveWriter)
    ensures
        archive_entries(r) == Seq::<(Seq<char>, bool, Seq<Seq<u8>>)>::empty(),
        archive_ready(r),
{
    ArchiveWriter { writer: ZipWriter::new(Cursor::new(Vec::new())) }
}

/// `ZipWriter::start_file`, with the options built as
/// `SimpleFileOptions::default().compression_method(CompressionMethod::Deflated)`
/// and the system set to `System::Unix` on every target: when it succeeds,
/// a file entry named `name` with no data yet is added at the end and
/// becomes the one that writes go to. It fails on a name already in the
/// archive and on a header of 64 KiB or more; on a ready archive within the
/// limits it succeeds for a new short name.
#[verifier::external_body]
fn archive_start_file(archive: &mut ArchiveWriter, name: &str) -> (r: Result<(), ZipError>)
    ensures
        archive_ready(*old(archive)) && within_limits(archive_entries(*old(archive)))
            && !has_entry_named(archive_entries(*old(archive)), name@) && short_name(name@)
            ==> r is Ok,
        r is Ok && archive_ready(*old(archive)) ==> archive_ready(*final(archive)),
        r is Ok ==> archive_entries(*final(archive)) == archive_entries(*old(archive)).push(
            (name@, false, Seq::empty()),
        ),
{
    archive.writer.start_file(
        name,
        SimpleFileOptions::default().compression_method(CompressionMethod::Deflated).system(
            System::Unix,
        ),
    )
}

/// `ZipWriter::add_directory`, with the same options as `archive_start_file`,
/// the Unix system among them (the crate stores directories whatever the
/// compression asked for): when it succeeds, a directory entry is added at
/// the end, named as `directory_name` says. It fails as `archive_start_file`
/// does, on the directory's name.
#[verifier::external_body]
fn archive_add_directory(archive: &mut ArchiveWriter, name: &str) -> (r: Result<(), ZipError>)
    ensures
        archive_ready(*old(archive)) && within_limits(archive_entries(*old(archive)))
            && !has_entry_named(archive_entries(*old(archive)), directory_name(name@))
            && short_name(directory_name(name@)) ==> r is Ok,
        r is Ok && archive_ready(*old(archive)) ==> archive_ready(*final(archive)),
        r is Ok ==> archive_entries(*final(archive)) == archive_entries(*old(archive)).push(
            (directory_name(name@), true, Seq::empty()),
        ),
{
    archive.writer.add_directory(
        name,
        SimpleFileOptions::default().compression_method(CompressionMethod::Deflated).system(
            System::Unix,
        ),
    )
}

/// `Write::write_all` on the writer. Empty data is not written at all; other
/// data is accepted only while a file entry is the last one, and is recorded
/// as that entry's next piece of data. Into an in-memory buffer it fails
/// only when no file is being written or a file reaches 4 GiB without the
/// large-file option, so on a ready archive whose last entry is a file it
/// succeeds while the data stays within the limits.
#[verifier::external_body]
fn archive_write_all(archive: &mut ArchiveWriter, data: &[u8]) -> (r: Result<(), std::io::Error>)
    ensures
        ({
            let before = archive_entries(*old(archive));
            archive_ready(*old(archive)) && before.len() > 0 && !before.last().1 && before.len()
                < 1000 && archive_data_len(before) + data@.len() < 0x8000_0000
        }) ==> r is Ok,
        r is Ok && archive_ready(*old(archive)) ==> archive_ready(*final(archive)),
        r is Ok && data@.len() == 0 ==> archive_entries(*final(archive)) == archive_entries(
            *old(archive),
        ),
        r is Ok && data@.len() > 0 ==> {
            let before = archive_entries(*old(archive));
            &&& before.len() > 0
            &&& !before.last().1
            &&& archive_entries(*final(archive)) == before.update(
                before.len() - 1,
                (before.last().0, false, before.last().2.push(data@)),
            )
        },
{
    archive.writer.write_all(data)
}

/// `ZipWriter::finish` finishes the last file, writes the central directory
/// and hands back the buffer, whose bytes are the finished archive of the
/// entries. On a ready archive within the limits it succeeds.
#[verifier::external_body]
fn archive_finish(archive: ArchiveWriter) -> (r: Result<Vec<u8>, ZipError>)
    ensures
        archive_ready(archive) && within_limits(archive_entries(archive)) ==> r is Ok,
        r matches Ok(bytes) ==> bytes@ == finished_archive(archive_entries(archive)),
{
    match archive.writer.finish() {
        Ok(cursor) => Ok(cursor.into_inner()),
        Err(error) => Err(error),
    }
}

/// `ZipError`'s `Display` text, as `ToString::to_string` gives it.
#[verifier::external_body]
fn zip_error_message(error: &ZipError) -> (r: String) {
    error.to_string()
}

/// `std::io::Error`'s `Display` text, as `ToString::to_string` gives it.
#[verifier::external_body]
fn io_error_message(error: &std::io::Error) -> (r: String) {
    error.to_string()
}

/// Why a DOCX package could not be built: the message of the error that the
/// archive writer reported.
#[derive(Debug)]
pub struct DocxError {
    pub message: String,
}

/// The `[Content_Types].xml` part.
pub open spec fn content_types_xml() -> Seq<char> {
    "<?xml version=\"1.0\" encoding=\"UTF-8\" standalone=\"yes\"?>\n<Types xmlns=\"http://schemas.openxmlformats.org/package/2006/content-types\">\n  <Default Extension=\"rels\" ContentType=\"application/vnd.openxmlformats-package.relationships+xml\"/>\n  <Default Extension=\"xml\" ContentType=\"application/xml\"/>\n  <Override PartName=\"/word/document.xml\" ContentType=\"application/vnd.openxmlformats-officedocument.wordprocessingml.document.main+xml\"/>\n</Types>"@
}

/// The `_rels/.rels` part, pointing at the document.
pub open spec fn package_relationships_xml() -> Seq<char> {
    "<?xml version=\"1.0\" encoding=\"UTF-8\" standalone=\"yes\"?>\n<Relationships xmlns=\"http://schemas.openxmlformats.org/package/2006/relationships\">\n  <Relationship Id=\"rId1\" Type=\"http://schemas.openxmlformats.org/officeDocument/2006/relationships/officeDocument\" Target=\"word/document.xml\"/>\n</Relationships>"@
}

/// The data of an entry written with one call of `archive_write_all`.
pub open spec fn written_once(data: Seq<u8>) -> Seq<Seq<u8>> {
    if data.len() == 0 {
        Seq::empty()
    } else {
        seq![data]
    }
}

/// The entries of the DOCX package for `text`, in the order they are written:
/// each part is UTF-8 encoded and written in one piece.
pub open spec fn docx_entries(text: Seq<char>) -> Seq<(Seq<char>, bool, Seq<Seq<u8>>)> {
    seq![
        ("[Content_Types].xml"@, false, written_once(encode_utf8(content_types_xml()))),
        ("_rels/"@, true, Seq::empty()),
        ("_rels/.rels"@, false, written_once(encode_utf8(package_relationships_xml()))),
        ("word/"@, true, Seq::empty()),
        ("word/document.xml"@, false, written_once(encode_utf8(document_xml(text)))),
    ]
}

/// One write into a file entry that has no data yet leaves it with the data
/// written in one piece, whether or not the data is empty.
proof fn lemma_write_into_new_file(
    before: Seq<(Seq<char>, bool, Seq<Seq<u8>>)>,
    after: Seq<(Seq<char>, bool, Seq<Seq<u8>>)>,
    name: Seq<char>,
    data: Seq<u8>,
)
    requires
        before.len() > 0,
        before.last() == (name, false, Seq::<Seq<u8>>::empty()),
        data.len() == 0 ==> after == before,
        data.len() > 0 ==> after == before.update(
            before.len() - 1,
            (before.last().0, false, before.last().2.push(data)),
        ),
    ensures
        after == before.drop_last().push((name, false, written_once(data))),
{
    assert(before =~= before.drop_last().push(before.last()));
    if data.len() > 0 {
        assert(Seq::<Seq<u8>>::empty().push(data) =~= seq![data]);
        assert(before.update(before.len() - 1, (name, false, seq![data])) =~= before.drop_last().push(
            (name, false, seq![data]),
        ));
    } else {
        assert(written_once(data) =~= Seq::<Seq<u8>>::empty());
    }
}

/// The UTF-8 form of a text is at most four bytes per character.
proof fn lemma_encode_utf8_len(s: Seq<char>)
    ensures
        encode_utf8(s).len() <= 4 * s.len(),
    decreases s.len(),
{
    if s.len() > 0 {
        lemma_encode_utf8_len(s.drop_first());
    }
}

/// The fixed parts of the package are short.
proof fn lemma_fixed_parts_are_short()
    ensures
        encode_utf8(content_types_xml()).len() < 4000,
        encode_utf8(package_relationships_xml()).len() < 4000,
{
    reveal_strlit(
        "<?xml version=\"1.0\" encoding=\"UTF-8\" standalone=\"yes\"?>\n<Types xmlns=\"http://schemas.openxmlformats.org/package/2006/content-types\">\n  <Default Extension=\"rels\" ContentType=\"application/vnd.openxmlformats-package.relationships+xml\"/>\n  <Default Extension=\"xml\" ContentType=\"application/xml\"/>\n  <Override PartName=\"/word/document.xml\" ContentType=\"application/vnd.openxmlformats-officedocument.wordprocessingml.document.main+xml\"/>\n</Types>",
    );
    reveal_strlit(
        "<?xml version=\"1.0\" encoding=\"UTF-8\" standalone=\"yes\"?>\n<Relationships xmlns=\"http://schemas.openxmlformats.org/package/2006/relationships\">\n  <Relationship Id=\"rId1\" Type=\"http://schemas.openxmlformats.org/officeDocument/2006/relationships/officeDocument\" Target=\"word/document.xml\"/>\n</Relationships>",
    );
    lemma_encode_utf8_len(content_types_xml());
    lemma_encode_utf8_len(package_relationships_xml());
}

/// Adding an entry adds its data to the archive's data.
proof fn lemma_archive_data_len_push(
    entries: Seq<(Seq<char>, bool, Seq<Seq<u8>>)>,
    entry: (Seq<char>, bool, Seq<Seq<u8>>),
)
    ensures
        archive_data_len(entries.push(entry)) == archive_data_len(entries) + data_len(entry.2),
{
    assert(entries.push(entry).drop_last() =~= entries);
}

/// Data written in one piece has the length of that piece.
proof fn lemma_data_len_written_once(data: Seq<u8>)
    ensures
        data_len(written_once(data)) == data.len(),
        data_len(Seq::<Seq<u8>>::empty()) == 0,
{
    assert(data_len(Seq::<Seq<u8>>::empty()) == 0);
    if data.len() > 0 {
        let one = seq![data];
        assert(one.drop_last() =~= Seq::<Seq<u8>>::empty());
        assert(one.last() == data);
        assert(written_once(data) == one);
        assert(data_len(one) == data_len(one.drop_last()) + one.last().len());
    }
}

/// `part` occurs in `text`.
pub open spec fn contains_text(text: Seq<char>, part: Seq<char>) -> bool {
    exists|k: int|
        0 <= k && k + part.len() <= text.len() && #[trigger] text.subrange(k, k + part.len())
            == part
}

/// The file entry named `name` in `entries` holds its data in one piece of
/// valid UTF-8 whose text contains `part`.
pub open spec fn entry_text_contains(
    entries: Seq<(Seq<char>, bool, Seq<Seq<u8>>)>,
    name: Seq<char>,
    part: Seq<char>,
) -> bool {
    &&& exists|i: int| 0 <= i < entries.len() && #[trigger] entries[i].0 == name
    &&& forall|i: int|
        0 <= i < entries.len() && #[trigger] entries[i].0 == name ==> {
            &&& !entries[i].1
            &&& entries[i].2.len() == 1
            &&& valid_utf8(entries[i].2[0])
            &&& contains_text(decode_utf8(entries[i].2[0]), part)
        }
}

/// The `<Override>` element that declares the main document part.
pub open spec fn main_document_override() -> Seq<char> {
    "<Override PartName=\"/word/document.xml\" ContentType=\"application/vnd.openxmlformats-officedocument.wordprocessingml.document.main+xml\"/>"@
}

/// The attributes of a relationship that names `word/document.xml` as the
/// office document.
pub open spec fn office_document_target() -> Seq<char> {
    "Type=\"http://schemas.openxmlformats.org/officeDocument/2006/relationships/officeDocument\" Target=\"word/document.xml\""@
}

proof fn lemma_content_types_declare_main_document()
    ensures
        contains_text(content_types_xml(), main_document_override()),
        content_types_xml().len() > 0,
{
    let ct = content_types_xml();
    let over = main_document_override();
    reveal_strlit(
        "<?xml version=\"1.0\" encoding=\"UTF-8\" standalone=\"yes\"?>\n<Types xmlns=\"http://schemas.openxmlformats.org/package/2006/content-types\">\n  <Default Extension=\"rels\" ContentType=\"application/vnd.openxmlformats-package.relationships+xml\"/>\n  <Default Extension=\"xml\" ContentType=\"application/xml\"/>\n  <Override PartName=\"/word/document.xml\" ContentType=\"application/vnd.openxmlformats-officedocument.wordprocessingml.document.main+xml\"/>\n</Types>",
    );
    reveal_strlit(
        "<Override PartName=\"/word/document.xml\" ContentType=\"application/vnd.openxmlformats-officedocument.wordprocessingml.document.main+xml\"/>",
    );
    assert(ct.len() == 440);
    assert(ct.subrange(295, 295 + over.len() as int) =~= over);
}

proof fn lemma_relationships_name_office_document()
    ensures
        contains_text(package_relationships_xml(), office_document_target()),
        package_relationships_xml().len() > 0,
{
    let rl = package_relationships_xml();
    let target = office_document_target();
    reveal_strlit(
        "<?xml version=\"1.0\" encoding=\"UTF-8\" standalone=\"yes\"?>\n<Relationships xmlns=\"http://schemas.openxmlformats.org/package/2006/relationships\">\n  <Relationship Id=\"rId1\" Type=\"http://schemas.openxmlformats.org/officeDocument/2006/relationships/officeDocument\" Target=\"word/document.xml\"/>\n</Relationships>",
    );
    reveal_strlit(
        "Type=\"http://schemas.openxmlformats.org/officeDocument/2006/relationships/officeDocument\" Target=\"word/document.xml\"",
    );
    assert(rl.len() == 302);
    assert(rl.subrange(167, 167 + target.len() as int) =~= target);
}

/// A text written in one piece of UTF-8 is that piece, and it contains
/// `part` when the text does.
proof fn lemma_written_text_contains(t: Seq<char>, part: Seq<char>)
    requires
        t.len() > 0,
        contains_text(t, part),
    ensures
        written_once(encode_utf8(t)).len() == 1,
        valid_utf8(written_once(encode_utf8(t))[0]),
        contains_text(decode_utf8(written_once(encode_utf8(t))[0]), part),
{
    encode_utf8_decode_utf8(t);
    encode_utf8_valid_utf8(t);
    assert(encode_utf8(t).len() > 0) by {
        if encode_utf8(t).len() == 0 {
            assert(decode_utf8(encode_utf8(t)).len() == 0);
        }
    }
}

/// The package is a WordprocessingML document: `[Content_Types].xml`
/// declares the part `/word/document.xml` with the content type of a main
/// document, `_rels/.rels` names `word/document.xml` as the office document,
/// and `word/document.xml` holds the UTF-8 form of the document built from
/// the text.
pub proof fn law_package_declares_the_main_document(text: Seq<char>)
    ensures
        entry_text_contains(docx_entries(text), "[Content_Types].xml"@, main_document_override()),
        entry_text_contains(docx_entries(text), "_rels/.rels"@, office_document_target()),
        entry_text_contains(docx_entries(text), "word/document.xml"@, document_xml(text)),
{
    let e = docx_entries(text);
    let ct = content_types_xml();
    let rl = package_relationships_xml();
    let dx = document_xml(text);
    reveal_strlit("[Content_Types].xml");
    reveal_strlit("_rels/");
    reveal_strlit("_rels/.rels");
    reveal_strlit("word/");
    reveal_strlit("word/document.xml");
    lemma_content_types_declare_main_document();
    lemma_relationships_name_office_document();
    lemma_written_text_contains(ct, main_document_override());
    lemma_written_text_contains(rl, office_document_target());
    assert(dx.len() > 0) by {
        reveal_strlit(
            "<?xml version=\"1.0\" encoding=\"UTF-8\" standalone=\"yes\"?>\n<w:document xmlns:w=\"http://schemas.openxmlformats.org/wordprocessingml/2006/main\">\n  <w:body>",
        );
    }
    assert(dx.subrange(0, 0 + dx.len() as int) =~= dx);
    lemma_written_text_contains(dx, dx);
    assert(e[0].0 == "[Content_Types].xml"@);
    assert(e[2].0 == "_rels/.rels"@);
    assert(e[4].0 == "word/document.xml"@);
}

/// Builds a DOCX file holding `text`, one paragraph per line. It succeeds
/// whenever the document is shorter than 2 GiB less 64 KiB in UTF-8.
pub fn build_docx(text: &str) -> (r: Result<Vec<u8>, DocxError>)
    ensures
        r matches Ok(bytes) ==> bytes@ == finished_archive(docx_entries(text@)),
        encode_utf8(document_xml(text@)).len() < 0x7FFF_0000 ==> r is Ok,
{
    let mut archive = archive_new();
    let content_types = "<?xml version=\"1.0\" encoding=\"UTF-8\" standalone=\"yes\"?>\n<Types xmlns=\"http://schemas.openxmlformats.org/package/2006/content-types\">\n  <Default Extension=\"rels\" ContentType=\"application/vnd.openxmlformats-package.relationships+xml\"/>\n  <Default Extension=\"xml\" ContentType=\"application/xml\"/>\n  <Override PartName=\"/word/document.xml\" ContentType=\"application/vnd.openxmlformats-officedocument.wordprocessingml.document.main+xml\"/>\n</Types>";
    let relationships = "<?xml version=\"1.0\" encoding=\"UTF-8\" standalone=\"yes\"?>\n<Relationships xmlns=\"http://schemas.openxmlformats.org/package/2006/relationships\">\n  <Relationship Id=\"rId1\" Type=\"http://schemas.openxmlformats.org/officeDocument/2006/relationships/officeDocument\" Target=\"word/document.xml\"/>\n</Relationships>";
    let document = build_document_xml(text);
    let ghost ct = encode_utf8(content_types_xml());
    let ghost rl = encode_utf8(package_relationships_xml());
    let ghost dx = encode_utf8(document_xml(text@));
    let ghost small = dx.len() < 0x7FFF_0000;
    proof {
        reveal_strlit("[Content_Types].xml");
        reveal_strlit("_rels/");
        reveal_strlit("_rels/.rels");
        reveal_strlit("word/");
        reveal_strlit("word/document.xml");
        lemma_fixed_parts_are_short();
        lemma_encode_utf8_len("[Content_Types].xml"@);
        lemma_encode_utf8_len("_rels/"@);
        lemma_encode_utf8_len("_rels/.rels"@);
        lemma_encode_utf8_len("word/"@);
        lemma_encode_utf8_len("word/document.xml"@);
        lemma_data_len_written_once(ct);
        lemma_data_len_written_once(rl);
        lemma_data_len_written_once(dx);
        assert(archive_data_len(Seq::<(Seq<char>, bool, Seq<Seq<u8>>)>::empty()) == 0);
    }
    let ghost e0 = archive_entries(archive);
    if let Err(e) = archive_start_file(&mut archive, "[Content_Types].xml") {
        return Err(DocxError { message: zip_error_message(&e) });
    }
    let ghost e1 = archive_entries(archive);
    proof {
        lemma_archive_data_len_push(e0, ("[Content_Types].xml"@, false, Seq::empty()));
    }
    if let Err(e) = archive_write_all(&mut archive, content_types.as_bytes()) {
        return Err(DocxError { message: io_error_message(&e) });
    }
    let ghost e2 = archive_entries(archive);
    proof {
        lemma_write_into_new_file(e1, e2, "[Content_Types].xml"@, ct);
        assert(e1.drop_last() =~= e0);
        lemma_archive_data_len_push(e0, ("[Content_Types].xml"@, false, written_once(ct)));
        assert(directory_name("_rels/"@) == "_rels/"@);
        assert forall|i: int| 0 <= i < e2.len() implies #[trigger] e2[i].0 != "_rels/"@ by {
            assert(e2[i].0.len() != "_rels/"@.len());
        }
    }
    if let Err(e) = archive_add_directory(&mut archive, "_rels/") {
        return Err(DocxError { message: zip_error_message(&e) });
    }
    let ghost e3 = archive_entries(archive);
    proof {
        lemma_archive_data_len_push(e2, ("_rels/"@, true, Seq::empty()));
        assert forall|i: int| 0 <= i < e3.len() implies #[trigger] e3[i].0 != "_rels/.rels"@ by {
            assert(e3[i].0.len() != "_rels/.rels"@.len());
        }
    }
    if let Err(e) = archive_start_file(&mut archive, "_rels/.rels") {
        return Err(DocxError { message: zip_error_message(&e) });
    }
    let ghost e4 = archive_entries(archive);
    proof {
        lemma_archive_data_len_push(e3, ("_rels/.rels"@, false, Seq::empty()));
    }
    if let Err(e) = archive_write_all(&mut archive, relationships.as_bytes()) {
        return Err(DocxError { message: io_error_message(&e) });
    }
    let ghost e5 = archive_entries(archive);
    proof {
        lemma_write_into_new_file(e4, e5, "_rels/.rels"@, rl);
        assert(e4.drop_last() =~= e3);
        lemma_archive_data_len_push(e3, ("_rels/.rels"@, false, written_once(rl)));
        assert(directory_name("word/"@) == "word/"@);
        assert forall|i: int| 0 <= i < e5.len() implies #[trigger] e5[i].0 != "word/"@ by {
            assert(e5[i].0.len() != "word/"@.len());
        }
    }
    if let Err(e) = archive_add_directory(&mut archive, "word/") {
        return Err(DocxError { message: zip_error_message(&e) });
    }
    let ghost e6 = archive_entries(archive);
    proof {
        lemma_archive_data_len_push(e5, ("word/"@, true, Seq::empty()));
        assert forall|i: int| 0 <= i < e6.len() implies #[trigger] e6[i].0 != "word/document.xml"@ by {
            assert(e6[i].0.len() != "word/document.xml"@.len());
        }
    }
    if let Err(e) = archive_start_file(&mut archive, "word/document.xml") {
        return Err(DocxError { message: zip_error_message(&e) });
    }
    let ghost e7 = archive_entries(archive);
    proof {
        lemma_archive_data_len_push(e6, ("word/document.xml"@, false, Seq::empty()));
    }
    if let Err(e) = archive_write_all(&mut archive, document.as_str().as_bytes()) {
        return Err(DocxError { message: io_error_message(&e) });
    }
    proof {
        lemma_write_into_new_file(e7, archive_entries(archive), "word/document.xml"@, dx);
        assert(e7.drop_last() =~= e6);
        lemma_archive_data_len_push(e6, ("word/document.xml"@, false, written_once(dx)));
        assert(archive_entries(archive) =~= docx_entries(text@));
    }
    match archive_finish(archive) {
        Ok(bytes) => Ok(bytes),
        Err(e) => Err(DocxError { message: zip_error_message(&e) }),
    }
}

} // verus!
