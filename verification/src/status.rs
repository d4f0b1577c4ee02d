use vstd::prelude::*;

use std::io::Write;

use crate::numbers::{dec_str, dec_val, is_u64_text, parse_u64, u64_to_string};
use crate::text::{push_char, split_on, split_str};

verus! {

/// One row of a status report: a named configuration with its
/// auto-connect setting, connection state and byte counters.
#[derive(Debug)]
pub struct Configuration {
    pub autoconnect: String,
    pub state: String,
    pub name: String,
    pub bytesin: u64,
    pub bytesout: u64,
}

pub ghost struct ConfigurationView {
    pub autoconnect: Seq<char>,
    pub state: Seq<char>,
    pub name: Seq<char>,
    pub bytesin: u64,
    pub bytesout: u64,
}

impl View for Configuration {
    type V = ConfigurationView;

    open spec fn view(&self) -> ConfigurationView {
        ConfigurationView {
            autoconnect: self.autoconnect@,
            state: self.state@,
            name: self.name@,
            bytesin: self.bytesin,
            bytesout: self.bytesout,
        }
    }
}

impl DeepView for Configuration {
    type V = ConfigurationView;

    open spec fn deep_view(&self) -> ConfigurationView {
        self.view()
    }
}

/// Why a status reply was rejected: a row with the wrong number of
/// fields, or a byte counter that is not an unsigned 64-bit decimal.
#[derive(Clone, Copy, PartialEq, Eq, Structural, Debug)]
pub enum StatusError {
    WrongFieldCount,
    BadByteCount,
}

/// The raw rows of a reply: segments between record separators, with one
/// trailing empty segment - the one after a final separator, or the
/// whole of an empty reply - dropped.
pub open spec fn raw_records(s: Seq<char>) -> Seq<Seq<char>> {
    let parts = split_on(s, '\u{1e}');
    if parts.last() == Seq::<char>::empty() {
        parts.drop_last()
    } else {
        parts
    }
}

pub open spec fn record_fields(rec: Seq<char>) -> Seq<Seq<char>> {
    split_on(rec, '\u{1f}')
}

/// A well-formed row: exactly the five fields, the two byte counters
/// decimal texts of unsigned 64-bit integers.
pub open spec fn record_ok(rec: Seq<char>) -> bool {
    let f = record_fields(rec);
    f.len() == 5 && is_u64_text(f[3]) && is_u64_text(f[4])
}

/// The typed row a well-formed raw row decodes to, fields positional:
/// autoconnect, state, name, bytesin, bytesout.
pub open spec fn record_of(rec: Seq<char>) -> ConfigurationView {
    let f = record_fields(rec);
    ConfigurationView {
        autoconnect: f[0],
        state: f[1],
        name: f[2],
        bytesin: dec_val(f[3]) as u64,
        bytesout: dec_val(f[4]) as u64,
    }
}

pub open spec fn record_error(rec: Seq<char>) -> StatusError {
    if record_fields(rec).len() != 5 {
        StatusError::WrongFieldCount
    } else {
        StatusError::BadByteCount
    }
}

/// The error for a whole reply: the error of the first row that is not
/// well formed, `None` when every row is.
pub open spec fn stream_error(rows: Seq<Seq<char>>) -> Option<StatusError>
    decreases rows.len(),
{
    if rows.len() == 0 {
        None
    } else if !record_ok(rows[0]) {
        Some(record_error(rows[0]))
    } else {
        stream_error(rows.drop_first())
    }
}

proof fn lemma_stream_error_skip(rows: Seq<Seq<char>>, i: int)
    requires
        0 <= i <= rows.len(),
        forall|j: int| 0 <= j < i ==> record_ok(rows[j]),
    ensures
        stream_error(rows) == stream_error(rows.skip(i)),
    decreases i,
{
    if i > 0 {
        assert(record_ok(rows[0]));
        assert(rows.drop_first() =~= rows.skip(1));
        lemma_stream_error_skip(rows.drop_first(), i - 1);
        assert(rows.drop_first().skip(i - 1) =~= rows.skip(i));
    } else {
        assert(rows.skip(0) =~= rows);
    }
}

/// Decodes one raw row.
fn parse_record(rec: &str) -> (r: Result<Configuration, StatusError>)
    ensures
        r is Ok <==> record_ok(rec@),
        r matches Ok(c) ==> c@ == record_of(rec@),
        r matches Err(e) ==> e == record_error(rec@),
{
    let mut fields = split_str(rec, '\u{1f}');
    if fields.len() != 5 {
        return Err(StatusError::WrongFieldCount);
    }
    let bytesout = match parse_u64(fields[4].as_str()) {
        Some(v) => v,
        None => {
            return Err(StatusError::BadByteCount);
        },
    };
    let bytesin = match parse_u64(fields[3].as_str()) {
        Some(v) => v,
        None => {
            return Err(StatusError::BadByteCount);
        },
    };
    let ghost fv = fields.deep_view();
    let _bytesout_text = fields.pop();
    let _bytesin_text = fields.pop();
    let name = fields.pop().unwrap();
    let state = fields.pop().unwrap();
    let autoconnect = fields.pop().unwrap();
    let c = Configuration { autoconnect, state, name, bytesin, bytesout };
    proof {
        assert(c@.autoconnect == fv[0]);
        assert(c@.state == fv[1]);
        assert(c@.name == fv[2]);
        assert(c@ == record_of(rec@));
    }
    Ok(c)
}

/// Decodes a whole status reply into typed rows, in arrival order.
/// Succeeds exactly when every row is well formed; otherwise reports the
/// error of the first row that is not, and yields nothing partial.
pub fn parse_status(reply: &str) -> (r: Result<Vec<Configuration>, StatusError>)
    ensures
        r is Ok <==> stream_error(raw_records(reply@)) is None,
        r matches Ok(v) ==> v.deep_view() == raw_records(reply@).map_values(
            |rec: Seq<char>| record_of(rec),
        ),
        r matches Err(e) ==> Some(e) == stream_error(raw_records(reply@)),
{
    let mut rows = split_str(reply, '\u{1e}');
    proof {
        crate::text::lemma_split_on_len(reply@, '\u{1e}');
    }
    let ghost all = rows.deep_view();
    if rows[rows.len() - 1].as_str().is_empty() {
        let _trailing = rows.pop();
        proof {
            assert(all.last() == Seq::<char>::empty());
            assert(rows.deep_view() =~= raw_records(reply@));
        }
    } else {
        proof {
            assert(all.last() != Seq::<char>::empty());
            assert(rows.deep_view() =~= raw_records(reply@));
        }
    }
    let ghost recs = raw_records(reply@);
    let n = rows.len();
    let mut out: Vec<Configuration> = Vec::new();
    let mut i: usize = 0;
    while i < n
        invariant
            i <= n,
            n == recs.len(),
            recs == raw_records(reply@),
            rows.deep_view() == recs,
            rows@.len() == n,
            forall|j: int| 0 <= j < i ==> record_ok(recs[j]),
            out.deep_view() =~= recs.take(i as int).map_values(|rec: Seq<char>| record_of(rec)),
        decreases n - i,
    {
        let ghost prev = out.deep_view();
        let row = rows[i].as_str();
        proof {
            assert(rows.deep_view()[i as int] == rows@[i as int]@);
            assert(row@ == recs[i as int]);
        }
        match parse_record(row) {
            Ok(c) => {
                out.push(c);
            },
            Err(e) => {
                proof {
                    lemma_stream_error_skip(recs, i as int);
                    assert(recs.skip(i as int)[0] == recs[i as int]);
                    assert(!record_ok(recs[i as int]));
                    assert(stream_error(recs.skip(i as int)) == Some(record_error(
                        recs[i as int],
                    )));
                }
                return Err(e);
            },
        }
        i = i + 1;
        proof {
            let t = recs.take(i as int);
            assert(out.deep_view() =~= prev.push(record_of(recs[i - 1])));
            assert(t.map_values(|rec: Seq<char>| record_of(rec)) =~= t.drop_last().map_values(
                |rec: Seq<char>| record_of(rec),
            ).push(record_of(t.last())));
            assert(t.drop_last() =~= recs.take(i - 1));
        }
    }
    proof {
        lemma_stream_error_skip(recs, n as int);
        assert(recs.skip(n as int) =~= Seq::<Seq<char>>::empty());
        assert(recs.take(n as int) =~= recs);
    }
    Ok(out)
}

/// One output line of a typed row: the five fields in order, tab
/// separated, newline terminated.
pub open spec fn config_line(c: ConfigurationView) -> Seq<char> {
    c.autoconnect + seq!['\t'] + c.state + seq!['\t'] + c.name + seq!['\t'] + dec_str(
        c.bytesin as nat,
    ) + seq!['\t'] + dec_str(c.bytesout as nat) + seq!['\n']
}

/// The whole unaligned output: one line per row, in order.
pub open spec fn rendered(rs: Seq<ConfigurationView>) -> Seq<char>
    decreases rs.len(),
{
    if rs.len() == 0 {
        Seq::<char>::empty()
    } else {
        rendered(rs.drop_last()) + config_line(rs.last())
    }
}

/// Re-serializes typed rows as tab-delimited text, one line per row, in
/// the order given.
pub fn format_status(records: &Vec<Configuration>) -> (r: String)
    ensures
        r@ == rendered(records.deep_view()),
{
    let ghost rs = records.deep_view();
    let mut out = String::new();
    let n = records.len();
    let mut i: usize = 0;
    proof {
        assert(rs.take(0) =~= Seq::<ConfigurationView>::empty());
    }
    while i < n
        invariant
            i <= n,
            n == records@.len(),
            rs == records.deep_view(),
            out@ == rendered(rs.take(i as int)),
        decreases n - i,
    {
        let ghost prev = out@;
        let c = &records[i];
        out.append(c.autoconnect.as_str());
        push_char(&mut out, '\t');
        out.append(c.state.as_str());
        push_char(&mut out, '\t');
        out.append(c.name.as_str());
        push_char(&mut out, '\t');
        let bin = u64_to_string(c.bytesin);
        out.append(bin.as_str());
        push_char(&mut out, '\t');
        let bout = u64_to_string(c.bytesout);
        out.append(bout.as_str());
        push_char(&mut out, '\n');
        i = i + 1;
        proof {
            let t = rs.take(i as int);
            assert(t.drop_last() =~= rs.take(i - 1));
            assert(t.last() == rs[i - 1]);
            assert(out@ =~= prev + config_line(rs[i - 1]));
        }
    }
    proof {
        assert(rs.take(n as int) =~= rs);
    }
    out
}

/// What the column-aligning pass returns for a given text.  The result
/// depends on the text alone; nothing further is assumed of it here.
pub uninterp spec fn tab_aligned(s: Seq<char>) -> Seq<char>;

/// Relies on tabwriter's `TabWriter` over an in-memory `Vec<u8>` sink,
/// with its default settings: buffering and flushing such a writer never
/// fail, the aligned text is a function of the input text alone, cells
/// are copied whole (so the output of `&str` input stays valid UTF-8),
/// and an empty input flushes to an empty output.
#[verifier::external_body]
fn align_text(s: &str) -> (r: String)
    ensures
        r@ == tab_aligned(s@),
        s@.len() == 0 ==> r@.len() == 0,
{
    let mut tw = tabwriter::TabWriter::new(Vec::new());
    let _ = tw.write_all(s.as_bytes());
    match tw.into_inner() {
        Ok(buf) => match String::from_utf8(buf) {
            Ok(t) => t,
            Err(_) => String::new(),
        },
        Err(_) => String::new(),
    }
}

/// Decodes a status reply and re-emits it as one aligned, tab-delimited
/// line per row, in arrival order.  A reply with no rows gives empty
/// output, not an error; a reply with any ill-formed row gives that
/// row's error and no partial output.
pub fn parse_and_format(reply: &str) -> (r: Result<String, StatusError>)
    ensures
        r is Ok <==> stream_error(raw_records(reply@)) is None,
        r matches Ok(t) ==> t@ == tab_aligned(
            rendered(raw_records(reply@).map_values(|rec: Seq<char>| record_of(rec))),
        ),
        r matches Ok(t) ==> (raw_records(reply@).len() == 0 ==> t@.len() == 0),
        r matches Err(e) ==> Some(e) == stream_error(raw_records(reply@)),
{
    match parse_status(reply) {
        Ok(records) => {
            let text = format_status(&records);
            proof {
                if raw_records(reply@).len() == 0 {
                    assert(records.deep_view() =~= Seq::<ConfigurationView>::empty());
                }
            }
            Ok(align_text(text.as_str()))
        },
        Err(e) => Err(e),
    }
}

} // verus!
