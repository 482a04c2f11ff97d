//! Reading the published part of a journal.

use crate::bytes;
use crate::compression::{gunzip, gunzipped};
use crate::host::{
    ask_bytes, ask_number, outcome, Call, CallView, FileAction, FileActionView, Halt, IoError,
    IoErrorView, IoHalt, IoKind, JournalFile, Script, Transcript,
};
use crate::journal::{
    invalid, invalid_data, invalid_input, is_not_found, manifest, manifest_run, not_found, sound,
    Manifest, OutputPage, OutputPageView, MAX_PAGE_BYTES, SEGMENT_BYTES,
};
use vstd::prelude::*;

verus! {

/// The contents of an archived segment.
pub open spec fn read_archive_run(t: Transcript, directory: Seq<char>, index: u64, size: u64) -> (
    Transcript,
    Result<Seq<u8>, IoHalt>,
) {
    let (t, r) = ask_number(
        t,
        CallView::Journal(directory, FileActionView::Length(JournalFile::Archive(index))),
    );
    match r {
        Err(halt) => (t, Err(halt)),
        Ok(length) => if length > size * 2 + 512 {
            (t, Err(Halt::Failed(invalid_data("Oversized compressed journal segment"@))))
        } else {
            let (t, r) = ask_bytes(
                t,
                CallView::Journal(
                    directory,
                    FileActionView::ReadStart(JournalFile::Archive(index), u64::MAX),
                ),
            );
            (
                t,
                match r {
                    Err(halt) => Err(halt),
                    Ok(data) => match gunzipped(data, (size + 1) as u64) {
                        Err(error) => Err(Halt::Failed(error)),
                        Ok(bytes) => if bytes.len() != size {
                            Err(
                                Halt::Failed(
                                    invalid_data("Invalid compressed journal segment length"@),
                                ),
                            )
                        } else {
                            Ok(bytes)
                        },
                    },
                },
            )
        },
    }
}

fn read_archive(script: &mut Script, directory: &str, index: u64, size: u64) -> (r: Result<
    Vec<u8>,
    Halt<IoError>,
>)
    requires
        size <= SEGMENT_BYTES,
    ensures
        (final(script).deep_view(), outcome(r)) == read_archive_run(
            old(script).deep_view(),
            directory@,
            index,
            size,
        ),
        r matches Ok(bytes) ==> bytes@.len() == size,
{
    broadcast use bytes::bytes_deep_view;

    let length = script.number(
        Call::Journal(directory.to_owned(), FileAction::Length(JournalFile::Archive(index))),
    )?;
    if length > size * 2 + 512 {
        return Err(Halt::Failed(invalid("Oversized compressed journal segment")));
    }
    let data = script.bytes(
        Call::Journal(
            directory.to_owned(),
            FileAction::ReadStart(JournalFile::Archive(index), u64::MAX),
        ),
    )?;
    match gunzip(data.as_slice(), size + 1) {
        Err(error) => Err(Halt::Failed(error)),
        Ok(contents) => {
            if contents.len() as u64 != size {
                return Err(Halt::Failed(invalid("Invalid compressed journal segment length")));
            }
            Ok(contents)
        },
    }
}

/// Reads a part of one segment, from its file or from its archive. Nothing comes
/// back where neither is there: the segment has left since the manifest was read.
pub open spec fn part_run(
    t: Transcript,
    directory: Seq<char>,
    m: Manifest,
    index: u64,
    offset: u64,
    count: u64,
) -> (Transcript, Result<Option<Seq<u8>>, IoHalt>) {
    let (t, r) = ask_bytes(
        t,
        CallView::Journal(
            directory,
            FileActionView::ReadAt(JournalFile::Segment(index), offset, count),
        ),
    );
    match r {
        Ok(bytes) => if bytes.len() == count {
            (t, Ok(Some(bytes)))
        } else {
            (
                t,
                Err(
                    Halt::Failed(
                        IoErrorView {
                            kind: IoKind::UnexpectedEof,
                            message: "failed to fill whole buffer"@,
                        },
                    ),
                ),
            )
        },
        Err(halt) => if not_found(halt) && m.archive {
            let (t, r) = read_archive_run(t, directory, index, m.segment_bytes);
            match r {
                Ok(bytes) => (t, Ok(Some(bytes.subrange(offset as int, offset + count)))),
                Err(halt) => if not_found(halt) {
                    (t, Ok(None))
                } else {
                    (t, Err(halt))
                },
            }
        } else if not_found(halt) {
            (t, Ok(None))
        } else {
            (t, Err(halt))
        },
    }
}

fn read_part(
    script: &mut Script,
    directory: &str,
    m: &Manifest,
    index: u64,
    offset: u64,
    count: u64,
) -> (r: Result<Option<Vec<u8>>, Halt<IoError>>)
    requires
        sound(*m),
        offset + count <= m.segment_bytes,
    ensures
        (final(script).deep_view(), outcome(r)) == part_run(
            old(script).deep_view(),
            directory@,
            *m,
            index,
            offset,
            count,
        ),
        r matches Ok(Some(bytes)) ==> bytes@.len() == count,
{
    broadcast use bytes::bytes_deep_view;

    match script.bytes(
        Call::Journal(
            directory.to_owned(),
            FileAction::ReadAt(JournalFile::Segment(index), offset, count),
        ),
    ) {
        Ok(part) => {
            if part.len() as u64 != count {
                return Err(
                    Halt::Failed(
                        IoError::new(IoKind::UnexpectedEof, "failed to fill whole buffer"),
                    ),
                );
            }
            Ok(Some(part))
        },
        Err(halt) => {
            if !is_not_found(&halt) {
                return Err(halt);
            }
            if !m.archive {
                return Ok(None);
            }
            match read_archive(script, directory, index, m.segment_bytes) {
                Ok(contents) => Ok(
                    Some(
                        bytes::slice(
                            contents.as_slice(),
                            offset as usize,
                            (offset + count) as usize,
                        ),
                    ),
                ),
                Err(halt) => {
                    if is_not_found(&halt) {
                        Ok(None)
                    } else {
                        Err(halt)
                    }
                },
            }
        },
    }
}

/// Reads the bytes from `at` up to `end`, segment by segment, behind those that
/// were read before.
pub open spec fn copy_run(
    t: Transcript,
    directory: Seq<char>,
    m: Manifest,
    at: int,
    end: int,
    before: Seq<u8>,
) -> (Transcript, Result<Option<Seq<u8>>, IoHalt>)
    decreases end - at,
{
    if at >= end || at < 0 || m.segment_bytes == 0 {
        (t, Ok(Some(before)))
    } else {
        let size = m.segment_bytes as int;
        let offset = at % size;
        let count = if end - at < size - offset {
            end - at
        } else {
            size - offset
        };
        let (t, r) = part_run(
            t,
            directory,
            m,
            (at / size) as u64,
            offset as u64,
            count as u64,
        );
        match r {
            Ok(Some(bytes)) => copy_run(t, directory, m, at + count, end, before + bytes),
            Ok(None) => (t, Ok(None)),
            Err(halt) => (t, Err(halt)),
        }
    }
}

fn copy_segments(script: &mut Script, directory: &str, m: &Manifest, start: u64, end: u64) -> (r:
    Result<Option<Vec<u8>>, Halt<IoError>>)
    requires
        sound(*m),
        start <= end,
    ensures
        (final(script).deep_view(), outcome(r)) == copy_run(
            old(script).deep_view(),
            directory@,
            *m,
            start as int,
            end as int,
            Seq::empty(),
        ),
        r matches Ok(Some(bytes)) ==> bytes@.len() == end - start,
{
    broadcast use bytes::bytes_deep_view;

    let mut out: Vec<u8> = Vec::new();
    let mut at: u64 = start;
    assert(out@ =~= Seq::empty());
    while at < end
        invariant
            sound(*m),
            start <= at <= end,
            out@.len() == at - start,
            copy_run(
                old(script).deep_view(),
                directory@,
                *m,
                start as int,
                end as int,
                Seq::empty(),
            ) == copy_run(script.deep_view(), directory@, *m, at as int, end as int, out@),
        decreases end - at,
    {
        let size: u64 = m.segment_bytes;
        let offset: u64 = at % size;
        let count: u64 = if end - at < size - offset {
            end - at
        } else {
            size - offset
        };
        let ghost held = out@;
        match read_part(script, directory, m, at / size, offset, count)? {
            None => return Ok(None),
            Some(part) => {
                bytes::append(&mut out, part.as_slice(), 0, part.len());
                assert(out@ =~= held + part@);
                proof {
                    bytes::bytes_deep_view(part);
                }
                at += count;
            },
        }
    }
    Ok(Some(out))
}

/// The page of `bytes` that begins at `start` of a journal with this manifest.
pub open spec fn page_of(m: Manifest, cursor: u64, bytes: Seq<u8>) -> OutputPageView {
    OutputPageView {
        start_cursor: page_start(m, cursor),
        next_cursor: (page_start(m, cursor) + bytes.len()) as u64,
        earliest_cursor: earliest(m),
        high_watermark: m.end,
        history_gap: cursor < earliest(m),
        closed: m.closed,
        bytes,
    }
}

/// The first byte that can still be read.
pub open spec fn earliest(m: Manifest) -> u64 {
    if m.archive {
        0
    } else {
        m.first
    }
}

/// Where a page begins: at the cursor, or at the first byte that is left.
pub open spec fn page_start(m: Manifest, cursor: u64) -> u64 {
    if cursor < earliest(m) {
        earliest(m)
    } else {
        cursor
    }
}

/// Where a page ends: at the limit, or at the end of what was published.
pub open spec fn page_end(m: Manifest, cursor: u64, limit: usize) -> int {
    if m.end - page_start(m, cursor) < limit {
        m.end as int
    } else {
        page_start(m, cursor) + limit
    }
}

pub open spec fn rotated() -> IoErrorView {
    IoErrorView {
        kind: IoKind::WouldBlock,
        message: "Output rotated while reading; retry the same cursor"@,
    }
}

/// Reads a page, from a fresh manifest each time that a segment has left meanwhile.
pub open spec fn attempts_run(
    t: Transcript,
    directory: Seq<char>,
    cursor: u64,
    limit: usize,
    attempts: nat,
) -> (Transcript, Result<OutputPageView, IoHalt>)
    decreases attempts,
{
    if attempts == 0 {
        (t, Err(Halt::Failed(rotated())))
    } else {
        let (t, r) = manifest_run(t, directory);
        match r {
            Err(halt) => (t, Err(halt)),
            Ok(m) => if cursor > m.end {
                (t, Err(Halt::Failed(invalid_input("Cursor is ahead of this journal"@))))
            } else {
                let (t, r) = copy_run(
                    t,
                    directory,
                    m,
                    page_start(m, cursor) as int,
                    page_end(m, cursor, limit),
                    Seq::empty(),
                );
                match r {
                    Err(halt) => (t, Err(halt)),
                    Ok(None) => attempts_run(t, directory, cursor, limit, (attempts - 1) as nat),
                    Ok(Some(bytes)) => (t, Ok(page_of(m, cursor, bytes))),
                }
            },
        }
    }
}

/// Reads a page of at most `limit` bytes from a cursor on.
pub open spec fn read_run(t: Transcript, directory: Seq<char>, cursor: u64, limit: usize) -> (
    Transcript,
    Result<OutputPageView, IoHalt>,
) {
    if limit == 0 || limit > MAX_PAGE_BYTES {
        (t, Err(Halt::Failed(invalid_input("Invalid output page size"@))))
    } else {
        attempts_run(t, directory, cursor, limit, 3)
    }
}

/// Reads a page of at most `limit` bytes from one immutable published high-water
/// mark. Polling again at `next_cursor` is the same operation for historical and
/// newly arriving output.
pub fn read(script: &mut Script, directory: &str, cursor: u64, limit: usize) -> (r: Result<
    OutputPage,
    Halt<IoError>,
>)
    ensures
        (final(script).deep_view(), outcome(r)) == read_run(
            old(script).deep_view(),
            directory@,
            cursor,
            limit,
        ),
{
    broadcast use bytes::bytes_deep_view;

    if limit == 0 || limit > MAX_PAGE_BYTES {
        return Err(
            Halt::Failed(IoError::new(IoKind::InvalidInput, "Invalid output page size")),
        );
    }
    let mut attempts: u8 = 3;
    while attempts > 0
        invariant
            0 < limit <= MAX_PAGE_BYTES,
            attempts <= 3,
            read_run(old(script).deep_view(), directory@, cursor, limit) == attempts_run(
                script.deep_view(),
                directory@,
                cursor,
                limit,
                attempts as nat,
            ),
        decreases attempts,
    {
        let snapshot = manifest(script, directory)?;
        if cursor > snapshot.end {
            return Err(
                Halt::Failed(
                    IoError::new(IoKind::InvalidInput, "Cursor is ahead of this journal"),
                ),
            );
        }
        let earliest_cursor: u64 = if snapshot.archive {
            0
        } else {
            snapshot.first
        };
        let start: u64 = if cursor < earliest_cursor {
            earliest_cursor
        } else {
            cursor
        };
        let end: u64 = if snapshot.end - start < limit as u64 {
            snapshot.end
        } else {
            start + limit as u64
        };
        if let Some(data) = copy_segments(script, directory, &snapshot, start, end)? {
            proof {
                bytes::bytes_deep_view(data);
            }
            let page = OutputPage {
                start_cursor: start,
                next_cursor: end,
                earliest_cursor,
                high_watermark: snapshot.end,
                history_gap: cursor < earliest_cursor,
                closed: snapshot.closed,
                bytes: data,
            };
            assert(page.deep_view() == page_of(snapshot, cursor, data@));
            return Ok(page);
        }
        attempts -= 1;
    }
    Err(
        Halt::Failed(
            IoError::new(
                IoKind::WouldBlock,
                "Output rotated while reading; retry the same cursor",
            ),
        ),
    )
}

} // verus!
