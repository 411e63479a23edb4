//! The record types and input streams of sources.
use crate::codegen::options::{capitalize, capitalized, get_option_value, option_string, rust_type, rust_type_name};
use crate::ir::{
    fields_view, options_view, ConnectorOption, FieldDef, SourceDef, SpecConnectorOption,
    SpecFieldDef,
};
use crate::text::{str_chars, str_eq};
use crate::utils::naming::NameGenerator;
use vstd::prelude::*;

verus! {

/// A record type to generate: its name and each field's name and Rust type.
#[derive(Debug)]
pub struct RecordType {
    pub name: String,
    pub fields: Vec<(String, &'static str)>,
}

/// The fields of a schema as (name, Rust type) pairs.
pub open spec fn record_fields(schema: Seq<SpecFieldDef>) -> Seq<(Seq<char>, Seq<char>)> {
    schema.map_values(|f: SpecFieldDef| (f.name, rust_type_name(f.data_type)))
}

pub open spec fn fields_text(fields: Seq<(String, &'static str)>) -> Seq<(Seq<char>, Seq<char>)> {
    fields.map_values(|f: (String, &'static str)| (f.0@, f.1@))
}

/// How a CSV reader ends records.
#[derive(Debug, Clone, Copy, PartialEq, Eq, Structural)]
pub enum TerminatorCode {
    /// Any one byte.
    Any(u8),
    /// `\r\n`, `\n` or `\r`.
    Crlf,
}

/// Which whitespace a CSV reader trims.
#[derive(Debug, Clone, Copy, PartialEq, Eq, Structural)]
pub enum TrimCode {
    Headers,
    Fields,
    All,
}

/// One configuration call on a CSV source.
#[derive(Debug, Clone, Copy, PartialEq, Eq, Structural)]
pub enum CsvCall {
    HasHeaders(bool),
    Delimiter(u8),
    Comment(u8),
    Quote(u8),
    Escape(u8),
    DoubleQuote(bool),
    Flexible(bool),
    Quoting(bool),
    Terminator(TerminatorCode),
    Trim(TrimCode),
}

/// A CSV source: the file and the reader's configuration, in call order.
#[derive(Debug)]
pub struct CsvSourceCode {
    pub path: String,
    pub calls: Vec<CsvCall>,
}

/// A Kafka source: brokers, topic and consumer group.
#[derive(Debug)]
pub struct KafkaSourceCode {
    pub brokers: String,
    pub topic: String,
    pub group_id: String,
}

/// The stream a source reads from.
#[derive(Debug)]
pub enum SourceStream {
    Csv(CsvSourceCode),
    Kafka(KafkaSourceCode),
    /// A connector type code generation does not know; nothing is read.
    Unknown,
}

/// A source's stream variable, record type and stream.
#[derive(Debug)]
pub struct SourceInit {
    pub var_name: String,
    pub struct_name: String,
    pub stream: SourceStream,
}

/// `true` for `true`, `false` for `false`, else the default.
pub open spec fn bool_or(s: Seq<char>, default: bool) -> bool {
    if s == "true"@ {
        true
    } else if s == "false"@ {
        false
    } else {
        default
    }
}

/// The low byte of the first character's code, if there is a character.
pub open spec fn first_byte(s: Seq<char>) -> Option<u8> {
    if s.len() > 0 {
        Some(((s[0] as u32) % 256) as u8)
    } else {
        None
    }
}

/// A record terminator: a line feed for `\n` (written out or as the
/// character), CRLF for `\r\n` (either way) or `CRLF`, else the first byte.
pub open spec fn terminator_of(s: Seq<char>) -> Option<TerminatorCode> {
    if s == "\\n"@ || s == "\n"@ {
        Some(TerminatorCode::Any(10))
    } else if s == "\\r\\n"@ || s == "\r\n"@ || s == "CRLF"@ {
        Some(TerminatorCode::Crlf)
    } else {
        match first_byte(s) {
            Some(b) => Some(TerminatorCode::Any(b)),
            None => None,
        }
    }
}

/// What is trimmed, from the lower-cased option value.
pub open spec fn trim_of(lowered: Seq<char>) -> Option<TrimCode> {
    if lowered == "headers"@ {
        Some(TrimCode::Headers)
    } else if lowered == "fields"@ {
        Some(TrimCode::Fields)
    } else if lowered == "all"@ {
        Some(TrimCode::All)
    } else {
        None
    }
}

/// What `str::to_lowercase` gives for a text.
pub uninterp spec fn lower_case(s: Seq<char>) -> Seq<char>;

/// The options that are read as booleans.
#[derive(Debug, Clone, Copy, PartialEq, Eq, Structural)]
pub enum BoolSetting {
    HasHeaders,
    DoubleQuote,
    Flexible,
    Quoting,
}

/// The options that are read as one byte.
#[derive(Debug, Clone, Copy, PartialEq, Eq, Structural)]
pub enum ByteSetting {
    Delimiter,
    Comment,
    Quote,
    Escape,
}

pub open spec fn bool_setting(which: BoolSetting, b: bool) -> CsvCall {
    match which {
        BoolSetting::HasHeaders => CsvCall::HasHeaders(b),
        BoolSetting::DoubleQuote => CsvCall::DoubleQuote(b),
        BoolSetting::Flexible => CsvCall::Flexible(b),
        BoolSetting::Quoting => CsvCall::Quoting(b),
    }
}

pub open spec fn byte_setting(which: ByteSetting, b: u8) -> CsvCall {
    match which {
        ByteSetting::Delimiter => CsvCall::Delimiter(b),
        ByteSetting::Comment => CsvCall::Comment(b),
        ByteSetting::Quote => CsvCall::Quote(b),
        ByteSetting::Escape => CsvCall::Escape(b),
    }
}

/// The call for a boolean option given as a string, if it is.
pub open spec fn bool_call(o: Option<Seq<char>>, default: bool, which: BoolSetting) -> Seq<CsvCall> {
    match o {
        Some(v) => seq![bool_setting(which, bool_or(v, default))],
        None => Seq::empty(),
    }
}

/// The call for a one-byte option given as a non-empty string, if it is.
pub open spec fn byte_call(o: Option<Seq<char>>, which: ByteSetting) -> Seq<CsvCall> {
    match o {
        Some(v) => match first_byte(v) {
            Some(b) => seq![byte_setting(which, b)],
            None => Seq::empty(),
        },
        None => Seq::empty(),
    }
}

/// The call for the `terminator` option, if it is given and not empty.
pub open spec fn terminator_call(o: Option<Seq<char>>) -> Seq<CsvCall> {
    match o {
        Some(v) => match terminator_of(v) {
            Some(t) => seq![CsvCall::Terminator(t)],
            None => Seq::empty(),
        },
        None => Seq::empty(),
    }
}

/// The call for the `trim` option, if its lower-cased value names a trim.
pub open spec fn trim_call(o: Option<Seq<char>>) -> Seq<CsvCall> {
    match o {
        Some(v) => match trim_of(lower_case(v)) {
            Some(t) => seq![CsvCall::Trim(t)],
            None => Seq::empty(),
        },
        None => Seq::empty(),
    }
}

/// The configuration calls for a CSV source's options, in this order:
/// `has_headers` (default true), `delimiter`, `comment`, `quote`, `escape`
/// (each the first byte of its value), `double_quote` (default true),
/// `flexible` (default false), `quoting` (default true), `terminator` and
/// `trim`; each only when its option is given as a string.
pub open spec fn csv_calls(opts: Seq<SpecConnectorOption>) -> Seq<CsvCall> {
    bool_call(option_string(opts, "has_headers"@), true, BoolSetting::HasHeaders)
        + byte_call(option_string(opts, "delimiter"@), ByteSetting::Delimiter)
        + byte_call(option_string(opts, "comment"@), ByteSetting::Comment)
        + byte_call(option_string(opts, "quote"@), ByteSetting::Quote)
        + byte_call(option_string(opts, "escape"@), ByteSetting::Escape)
        + bool_call(option_string(opts, "double_quote"@), true, BoolSetting::DoubleQuote)
        + bool_call(option_string(opts, "flexible"@), false, BoolSetting::Flexible)
        + bool_call(option_string(opts, "quoting"@), true, BoolSetting::Quoting)
        + terminator_call(option_string(opts, "terminator"@))
        + trim_call(option_string(opts, "trim"@))
}

/// The option's string value, or a default.
pub open spec fn string_or(o: Option<Seq<char>>, default: Seq<char>) -> Seq<char> {
    match o {
        Some(v) => v,
        None => default,
    }
}

/// `str::to_lowercase`: the lower-case form of a text. Which characters it
/// is for a given text is Unicode's table, which is not stated here.
#[verifier::external_body]
fn str_lower_case(s: &str) -> (r: String)
    ensures
        r@ == lower_case(s@),
{
    s.to_lowercase()
}

/// What is trimmed, from the lower-cased `trim` option value.
pub fn trim_kind(lowered: &str) -> (r: Option<TrimCode>)
    ensures
        r == trim_of(lowered@),
{
    if str_eq(lowered, "headers") {
        Some(TrimCode::Headers)
    } else if str_eq(lowered, "fields") {
        Some(TrimCode::Fields)
    } else if str_eq(lowered, "all") {
        Some(TrimCode::All)
    } else {
        None
    }
}

fn bool_value(s: &str, default: bool) -> (r: bool)
    ensures
        r == bool_or(s@, default),
{
    if str_eq(s, "true") {
        true
    } else if str_eq(s, "false") {
        false
    } else {
        default
    }
}

fn first_byte_of(s: &str) -> (r: Option<u8>)
    ensures
        r == first_byte(s@),
{
    let v = str_chars(s);
    if v.len() > 0 {
        let code = v[0] as u32;
        Some((code % 256) as u8)
    } else {
        None
    }
}

fn terminator_kind(s: &str) -> (r: Option<TerminatorCode>)
    ensures
        r == terminator_of(s@),
{
    if str_eq(s, "\\n") || str_eq(s, "\n") {
        Some(TerminatorCode::Any(10))
    } else if str_eq(s, "\\r\\n") || str_eq(s, "\r\n") || str_eq(s, "CRLF") {
        Some(TerminatorCode::Crlf)
    } else {
        match first_byte_of(s) {
            Some(b) => Some(TerminatorCode::Any(b)),
            None => None,
        }
    }
}

/// The call list of one option, pushed onto `calls`.
fn push_part(calls: &mut Vec<CsvCall>, part: Option<CsvCall>)
    ensures
        final(calls)@ == old(calls)@ + match part {
            Some(c) => seq![c],
            None => Seq::<CsvCall>::empty(),
        },
{
    if let Some(c) = part {
        calls.push(c);
    }
    assert(final(calls)@ =~= old(calls)@ + match part {
        Some(c) => seq![c],
        None => Seq::<CsvCall>::empty(),
    });
}

pub open spec fn part_seq(part: Option<CsvCall>) -> Seq<CsvCall> {
    match part {
        Some(c) => seq![c],
        None => Seq::empty(),
    }
}

fn bool_part(opts: &[ConnectorOption], key: &str, default: bool, which: BoolSetting) -> (r: Option<CsvCall>)
    ensures
        part_seq(r) == bool_call(option_string(options_view(opts@), key@), default, which),
{
    match get_option_value(opts, key) {
        Some(v) => {
            let b = bool_value(v.as_str(), default);
            let c = match which {
                BoolSetting::HasHeaders => CsvCall::HasHeaders(b),
                BoolSetting::DoubleQuote => CsvCall::DoubleQuote(b),
                BoolSetting::Flexible => CsvCall::Flexible(b),
                BoolSetting::Quoting => CsvCall::Quoting(b),
            };
            Some(c)
        },
        None => None,
    }
}

fn byte_part(opts: &[ConnectorOption], key: &str, which: ByteSetting) -> (r: Option<CsvCall>)
    ensures
        part_seq(r) == byte_call(option_string(options_view(opts@), key@), which),
{
    match get_option_value(opts, key) {
        Some(v) => match first_byte_of(v.as_str()) {
            Some(b) => {
                let c = match which {
                    ByteSetting::Delimiter => CsvCall::Delimiter(b),
                    ByteSetting::Comment => CsvCall::Comment(b),
                    ByteSetting::Quote => CsvCall::Quote(b),
                    ByteSetting::Escape => CsvCall::Escape(b),
                };
                Some(c)
            },
            None => None,
        },
        None => None,
    }
}

fn terminator_part(opts: &[ConnectorOption]) -> (r: Option<CsvCall>)
    ensures
        part_seq(r) == terminator_call(option_string(options_view(opts@), "terminator"@)),
{
    match get_option_value(opts, "terminator") {
        Some(v) => match terminator_kind(v.as_str()) {
            Some(t) => Some(CsvCall::Terminator(t)),
            None => None,
        },
        None => None,
    }
}

fn trim_part(opts: &[ConnectorOption]) -> (r: Option<CsvCall>)
    ensures
        part_seq(r) == trim_call(option_string(options_view(opts@), "trim"@)),
{
    match get_option_value(opts, "trim") {
        Some(v) => {
            let lowered = str_lower_case(v.as_str());
            match trim_kind(lowered.as_str()) {
                Some(t) => Some(CsvCall::Trim(t)),
                None => None,
            }
        },
        None => None,
    }
}

/// Generate CSV source
pub fn generate_csv_source(source: &SourceDef) -> (r: CsvSourceCode)
    ensures
        r.path@ == string_or(
            option_string(options_view(source.connector.options@), "path"@),
            "data.csv"@,
        ),
        r.calls@ == csv_calls(options_view(source.connector.options@)),
{
    let opts = source.connector.options.as_slice();
    let path = match get_option_value(opts, "path") {
        Some(p) => p,
        None => "data.csv".to_owned(),
    };
    let p1 = bool_part(opts, "has_headers", true, BoolSetting::HasHeaders);
    let p2 = byte_part(opts, "delimiter", ByteSetting::Delimiter);
    let p3 = byte_part(opts, "comment", ByteSetting::Comment);
    let p4 = byte_part(opts, "quote", ByteSetting::Quote);
    let p5 = byte_part(opts, "escape", ByteSetting::Escape);
    let p6 = bool_part(opts, "double_quote", true, BoolSetting::DoubleQuote);
    let p7 = bool_part(opts, "flexible", false, BoolSetting::Flexible);
    let p8 = bool_part(opts, "quoting", true, BoolSetting::Quoting);
    let p9 = terminator_part(opts);
    let p10 = trim_part(opts);
    let mut calls: Vec<CsvCall> = Vec::new();
    push_part(&mut calls, p1);
    push_part(&mut calls, p2);
    push_part(&mut calls, p3);
    push_part(&mut calls, p4);
    push_part(&mut calls, p5);
    push_part(&mut calls, p6);
    push_part(&mut calls, p7);
    push_part(&mut calls, p8);
    push_part(&mut calls, p9);
    push_part(&mut calls, p10);
    assert(calls@ =~= part_seq(p1) + part_seq(p2) + part_seq(p3) + part_seq(p4) + part_seq(p5)
        + part_seq(p6) + part_seq(p7) + part_seq(p8) + part_seq(p9) + part_seq(p10));
    CsvSourceCode { path, calls }
}

/// The brokers, topic and group of a Kafka source: the options of these
/// names, else `localhost:9092`, `events` and `consumer_group`.
pub open spec fn kafka_fields(k: KafkaSourceCode, opts: Seq<SpecConnectorOption>) -> bool {
    &&& k.brokers@ == string_or(option_string(opts, "brokers"@), "localhost:9092"@)
    &&& k.topic@ == string_or(option_string(opts, "topic"@), "events"@)
    &&& k.group_id@ == string_or(option_string(opts, "group_id"@), "consumer_group"@)
}

/// Generate Kafka source
pub fn generate_kafka_source(source: &SourceDef) -> (r: KafkaSourceCode)
    ensures
        kafka_fields(r, options_view(source.connector.options@)),
{
    let opts = source.connector.options.as_slice();
    let brokers = match get_option_value(opts, "brokers") {
        Some(v) => v,
        None => "localhost:9092".to_owned(),
    };
    let topic = match get_option_value(opts, "topic") {
        Some(v) => v,
        None => "events".to_owned(),
    };
    let group_id = match get_option_value(opts, "group_id") {
        Some(v) => v,
        None => "consumer_group".to_owned(),
    };
    KafkaSourceCode { brokers, topic, group_id }
}

/// The record type of a schema, named `name`.
pub(crate) fn record_type(name: String, schema: &Vec<FieldDef>) -> (r: RecordType)
    ensures
        r.name == name,
        fields_text(r.fields@) == record_fields(fields_view(schema@)),
{
    proof {
        crate::ir::lemma_fields_view_index(schema@);
    }
    let mut fields: Vec<(String, &'static str)> = Vec::new();
    let mut i: usize = 0;
    while i < schema.len()
        invariant
            i <= schema.len(),
            fields_view(schema@).len() == schema.len(),
            forall|k: int| 0 <= k < schema.len() ==> #[trigger] fields_view(schema@)[k] == schema@[k]@,
            fields@.len() == i,
            forall|k: int| 0 <= k < i ==> (#[trigger] fields@[k]).0@ == schema@[k].name@ && fields@[k].1@
                == rust_type_name(schema@[k].data_type),
        decreases schema.len() - i,
    {
        fields.push((schema[i].name.clone(), rust_type(&schema[i].data_type)));
        i = i + 1;
    }
    assert(fields_text(fields@) =~= record_fields(fields_view(schema@)));
    RecordType { name, fields }
}

/// `r` is the record type of a source: its name capitalized, one field per
/// schema field with its Rust type.
pub open spec fn is_source_struct(r: RecordType, source: SourceDef) -> bool {
    &&& r.name@ == capitalized(source.name@)
    &&& fields_text(r.fields@) == record_fields(fields_view(source.schema@))
}

/// `r` is how a source is read: the variable `name_source`, the record
/// type, and a CSV stream for `csv`, a Kafka stream for `kafka`, nothing for
/// other connector types.
pub open spec fn is_source_init(r: SourceInit, source: SourceDef) -> bool {
    &&& r.var_name@ == source.name@ + "_source"@
    &&& r.struct_name@ == capitalized(source.name@)
    &&& match r.stream {
        SourceStream::Csv(c) => source.connector.connector_type@ == "csv"@ && c.path@ == string_or(
            option_string(options_view(source.connector.options@), "path"@),
            "data.csv"@,
        ) && c.calls@ == csv_calls(options_view(source.connector.options@)),
        SourceStream::Kafka(k) => source.connector.connector_type@ == "kafka"@
            && source.connector.connector_type@ != "csv"@ && kafka_fields(
            k,
            options_view(source.connector.options@),
        ),
        SourceStream::Unknown => source.connector.connector_type@ != "csv"@
            && source.connector.connector_type@ != "kafka"@,
    }
}

/// Generate a struct definition for a source
pub fn generate_source_struct(source: &SourceDef) -> (r: RecordType)
    ensures
        is_source_struct(r, *source),
{
    record_type(capitalize(source.name.as_str()), &source.schema)
}

/// Generate source initialization code based on connector type
pub fn generate_source_init(source: &SourceDef, name_gen: &mut NameGenerator) -> (r: SourceInit)
    ensures
        is_source_init(r, *source),
        *final(name_gen) == *old(name_gen),
{
    let var_name = name_gen.source(source.name.as_str());
    proof {
        reveal_strlit("_source");
    }
    let struct_name = capitalize(source.name.as_str());
    let stream = if str_eq(source.connector.connector_type.as_str(), "csv") {
        SourceStream::Csv(generate_csv_source(source))
    } else if str_eq(source.connector.connector_type.as_str(), "kafka") {
        SourceStream::Kafka(generate_kafka_source(source))
    } else {
        SourceStream::Unknown
    };
    assert(var_name@ == source.name@ + "_source"@);
    assert(struct_name@ == capitalized(source.name@));
    SourceInit { var_name, struct_name, stream }
}

/// Generate source definition code: the record type of each source, then
/// how each source is read, in program order.
pub fn generate_sources(sources: &[SourceDef]) -> (r: (Vec<RecordType>, Vec<SourceInit>))
    ensures
        r.0@.len() == sources@.len(),
        r.1@.len() == sources@.len(),
        forall|i: int| 0 <= i < sources@.len() ==> is_source_struct(#[trigger] r.0@[i], sources@[i]),
        forall|i: int| 0 <= i < sources@.len() ==> is_source_init(#[trigger] r.1@[i], sources@[i]),
{
    let mut name_gen = NameGenerator::new();
    let mut structs: Vec<RecordType> = Vec::new();
    let mut i: usize = 0;
    while i < sources.len()
        invariant
            i <= sources.len(),
            structs@.len() == i,
            forall|k: int| 0 <= k < i ==> is_source_struct(#[trigger] structs@[k], sources@[k]),
        decreases sources.len() - i,
    {
        structs.push(generate_source_struct(&sources[i]));
        i = i + 1;
    }
    let mut inits: Vec<SourceInit> = Vec::new();
    let mut j: usize = 0;
    while j < sources.len()
        invariant
            j <= sources.len(),
            inits@.len() == j,
            forall|k: int| 0 <= k < j ==> is_source_init(#[trigger] inits@[k], sources@[k]),
        decreases sources.len() - j,
    {
        inits.push(generate_source_init(&sources[j], &mut name_gen));
        j = j + 1;
    }
    (structs, inits)
}

/// Which option a call sets, by its position in `csv_calls`.
spec fn call_kind(c: CsvCall) -> int {
    match c {
        CsvCall::HasHeaders(_) => 0,
        CsvCall::Delimiter(_) => 1,
        CsvCall::Comment(_) => 2,
        CsvCall::Quote(_) => 3,
        CsvCall::Escape(_) => 4,
        CsvCall::DoubleQuote(_) => 5,
        CsvCall::Flexible(_) => 6,
        CsvCall::Quoting(_) => 7,
        CsvCall::Terminator(_) => 8,
        CsvCall::Trim(_) => 9,
    }
}

/// The calls taken from the `k`-th option, given the ten option values.
spec fn part_of(o0: Option<Seq<char>>, o1: Option<Seq<char>>, o2: Option<Seq<char>>, o3: Option<Seq<char>>, o4: Option<Seq<char>>, o5: Option<Seq<char>>, o6: Option<Seq<char>>, o7: Option<Seq<char>>, o8: Option<Seq<char>>, o9: Option<Seq<char>>, k: int) -> Seq<CsvCall> {
    if k == 0 {
        bool_call(o0, true, BoolSetting::HasHeaders)
    } else if k == 1 {
        byte_call(o1, ByteSetting::Delimiter)
    } else if k == 2 {
        byte_call(o2, ByteSetting::Comment)
    } else if k == 3 {
        byte_call(o3, ByteSetting::Quote)
    } else if k == 4 {
        byte_call(o4, ByteSetting::Escape)
    } else if k == 5 {
        bool_call(o5, true, BoolSetting::DoubleQuote)
    } else if k == 6 {
        bool_call(o6, false, BoolSetting::Flexible)
    } else if k == 7 {
        bool_call(o7, true, BoolSetting::Quoting)
    } else if k == 8 {
        terminator_call(o8)
    } else {
        trim_call(o9)
    }
}

proof fn lemma_bool_call_shape(o: Option<Seq<char>>, d: bool, w: BoolSetting, k: int)
    requires
        k == match w {
            BoolSetting::HasHeaders => 0int,
            BoolSetting::DoubleQuote => 5int,
            BoolSetting::Flexible => 6int,
            BoolSetting::Quoting => 7int,
        },
    ensures
        bool_call(o, d, w).len() <= 1,
        forall|i: int| 0 <= i < bool_call(o, d, w).len() ==> call_kind(#[trigger] bool_call(o, d, w)[i]) == k,
{
}

proof fn lemma_byte_call_shape(o: Option<Seq<char>>, w: ByteSetting, k: int)
    requires
        k == match w {
            ByteSetting::Delimiter => 1int,
            ByteSetting::Comment => 2int,
            ByteSetting::Quote => 3int,
            ByteSetting::Escape => 4int,
        },
    ensures
        byte_call(o, w).len() <= 1,
        forall|i: int| 0 <= i < byte_call(o, w).len() ==> call_kind(#[trigger] byte_call(o, w)[i]) == k,
{
}

proof fn lemma_part_shape(o0: Option<Seq<char>>, o1: Option<Seq<char>>, o2: Option<Seq<char>>, o3: Option<Seq<char>>, o4: Option<Seq<char>>, o5: Option<Seq<char>>, o6: Option<Seq<char>>, o7: Option<Seq<char>>, o8: Option<Seq<char>>, o9: Option<Seq<char>>, k: int)
    requires
        0 <= k < 10,
    ensures
        part_of(o0, o1, o2, o3, o4, o5, o6, o7, o8, o9, k).len() <= 1,
        forall|i: int| 0 <= i < part_of(o0, o1, o2, o3, o4, o5, o6, o7, o8, o9, k).len() ==> call_kind(#[trigger] part_of(o0, o1, o2, o3, o4, o5, o6, o7, o8, o9, k)[i]) == k,
{
    if k == 0 {
        lemma_bool_call_shape(o0, true, BoolSetting::HasHeaders, k);
    } else if k == 1 {
        lemma_byte_call_shape(o1, ByteSetting::Delimiter, k);
    } else if k == 2 {
        lemma_byte_call_shape(o2, ByteSetting::Comment, k);
    } else if k == 3 {
        lemma_byte_call_shape(o3, ByteSetting::Quote, k);
    } else if k == 4 {
        lemma_byte_call_shape(o4, ByteSetting::Escape, k);
    } else if k == 5 {
        lemma_bool_call_shape(o5, true, BoolSetting::DoubleQuote, k);
    } else if k == 6 {
        lemma_bool_call_shape(o6, false, BoolSetting::Flexible, k);
    } else if k == 7 {
        lemma_bool_call_shape(o7, true, BoolSetting::Quoting, k);
    }
}

proof fn lemma_filter_small(s: Seq<CsvCall>, pred: spec_fn(CsvCall) -> bool)
    requires
        s.len() <= 1,
    ensures
        s.filter(pred) == (if s.len() == 1 && pred(s[0]) {
            s
        } else {
            Seq::<CsvCall>::empty()
        }),
{
    reveal_with_fuel(Seq::<CsvCall>::filter, 2);
    if s.len() == 1 {
        assert(s.drop_last() =~= Seq::<CsvCall>::empty());
        if pred(s[0]) {
            assert(Seq::<CsvCall>::empty().push(s[0]) =~= s);
        }
    }
}

/// The calls of `s` that set the `k`-th option.
spec fn kind_of(s: Seq<CsvCall>, k: int) -> Seq<CsvCall> {
    s.filter(|c: CsvCall| call_kind(c) == k)
}

proof fn lemma_kind_step(acc: Seq<CsvCall>, p: Seq<CsvCall>, j: int, k: int)
    requires
        p.len() <= 1,
        forall|i: int| 0 <= i < p.len() ==> call_kind(#[trigger] p[i]) == j,
    ensures
        kind_of(acc + p, k) == kind_of(acc, k) + (if j == k {
            p
        } else {
            Seq::<CsvCall>::empty()
        }),
{
    let pred = |c: CsvCall| call_kind(c) == k;
    Seq::filter_distributes_over_add(acc, p, pred);
    lemma_filter_small(p, pred);
    if p.len() == 1 {
        assert(call_kind(p[0]) == j);
    } else {
        assert(p =~= Seq::<CsvCall>::empty());
    }
    if j != k {
        assert(kind_of(acc, k) + Seq::<CsvCall>::empty() =~= kind_of(acc, k));
    }
}

/// Of the calls taken from ten option values, those of kind `k` are the
/// ones taken from the `k`-th value.
#[verifier::rlimit(40)]
proof fn lemma_kind_filter(o0: Option<Seq<char>>, o1: Option<Seq<char>>, o2: Option<Seq<char>>, o3: Option<Seq<char>>, o4: Option<Seq<char>>, o5: Option<Seq<char>>, o6: Option<Seq<char>>, o7: Option<Seq<char>>, o8: Option<Seq<char>>, o9: Option<Seq<char>>, k: int)
    requires
        0 <= k < 10,
    ensures
        kind_of(bool_call(o0, true, BoolSetting::HasHeaders) + byte_call(o1, ByteSetting::Delimiter) + byte_call(o2, ByteSetting::Comment) + byte_call(o3, ByteSetting::Quote) + byte_call(o4, ByteSetting::Escape) + bool_call(o5, true, BoolSetting::DoubleQuote) + bool_call(o6, false, BoolSetting::Flexible) + bool_call(o7, true, BoolSetting::Quoting) + terminator_call(o8) + trim_call(o9), k) == part_of(o0, o1, o2, o3, o4, o5, o6, o7, o8, o9, k),
{
    let p0 = bool_call(o0, true, BoolSetting::HasHeaders);
    lemma_part_shape(o0, o1, o2, o3, o4, o5, o6, o7, o8, o9, 0);
    assert(part_of(o0, o1, o2, o3, o4, o5, o6, o7, o8, o9, 0) == p0);
    let p1 = byte_call(o1, ByteSetting::Delimiter);
    lemma_part_shape(o0, o1, o2, o3, o4, o5, o6, o7, o8, o9, 1);
    assert(part_of(o0, o1, o2, o3, o4, o5, o6, o7, o8, o9, 1) == p1);
    let p2 = byte_call(o2, ByteSetting::Comment);
    lemma_part_shape(o0, o1, o2, o3, o4, o5, o6, o7, o8, o9, 2);
    assert(part_of(o0, o1, o2, o3, o4, o5, o6, o7, o8, o9, 2) == p2);
    let p3 = byte_call(o3, ByteSetting::Quote);
    lemma_part_shape(o0, o1, o2, o3, o4, o5, o6, o7, o8, o9, 3);
    assert(part_of(o0, o1, o2, o3, o4, o5, o6, o7, o8, o9, 3) == p3);
    let p4 = byte_call(o4, ByteSetting::Escape);
    lemma_part_shape(o0, o1, o2, o3, o4, o5, o6, o7, o8, o9, 4);
    assert(part_of(o0, o1, o2, o3, o4, o5, o6, o7, o8, o9, 4) == p4);
    let p5 = bool_call(o5, true, BoolSetting::DoubleQuote);
    lemma_part_shape(o0, o1, o2, o3, o4, o5, o6, o7, o8, o9, 5);
    assert(part_of(o0, o1, o2, o3, o4, o5, o6, o7, o8, o9, 5) == p5);
    let p6 = bool_call(o6, false, BoolSetting::Flexible);
    lemma_part_shape(o0, o1, o2, o3, o4, o5, o6, o7, o8, o9, 6);
    assert(part_of(o0, o1, o2, o3, o4, o5, o6, o7, o8, o9, 6) == p6);
    let p7 = bool_call(o7, true, BoolSetting::Quoting);
    lemma_part_shape(o0, o1, o2, o3, o4, o5, o6, o7, o8, o9, 7);
    assert(part_of(o0, o1, o2, o3, o4, o5, o6, o7, o8, o9, 7) == p7);
    let p8 = terminator_call(o8);
    lemma_part_shape(o0, o1, o2, o3, o4, o5, o6, o7, o8, o9, 8);
    assert(part_of(o0, o1, o2, o3, o4, o5, o6, o7, o8, o9, 8) == p8);
    let p9 = trim_call(o9);
    lemma_part_shape(o0, o1, o2, o3, o4, o5, o6, o7, o8, o9, 9);
    assert(part_of(o0, o1, o2, o3, o4, o5, o6, o7, o8, o9, 9) == p9);
    let a1 = p0;
    lemma_filter_small(p0, |c: CsvCall| call_kind(c) == k);
    if p0.len() == 1 {
        assert(call_kind(p0[0]) == 0);
    } else {
        assert(p0 =~= Seq::<CsvCall>::empty());
    }
    lemma_kind_step(a1, p1, 1, k);
    let a2 = a1 + p1;
    lemma_kind_step(a2, p2, 2, k);
    let a3 = a2 + p2;
    lemma_kind_step(a3, p3, 3, k);
    let a4 = a3 + p3;
    lemma_kind_step(a4, p4, 4, k);
    let a5 = a4 + p4;
    lemma_kind_step(a5, p5, 5, k);
    let a6 = a5 + p5;
    lemma_kind_step(a6, p6, 6, k);
    let a7 = a6 + p6;
    lemma_kind_step(a7, p7, 7, k);
    let a8 = a7 + p7;
    lemma_kind_step(a8, p8, 8, k);
    let a9 = a8 + p8;
    lemma_kind_step(a9, p9, 9, k);
    let a10 = a9 + p9;
    if k == 0 {
        assert(kind_of(a10, k) =~= p0);
    } else if k == 1 {
        assert(kind_of(a10, k) =~= p1);
    } else if k == 2 {
        assert(kind_of(a10, k) =~= p2);
    } else if k == 3 {
        assert(kind_of(a10, k) =~= p3);
    } else if k == 4 {
        assert(kind_of(a10, k) =~= p4);
    } else if k == 5 {
        assert(kind_of(a10, k) =~= p5);
    } else if k == 6 {
        assert(kind_of(a10, k) =~= p6);
    } else if k == 7 {
        assert(kind_of(a10, k) =~= p7);
    } else if k == 8 {
        assert(kind_of(a10, k) =~= p8);
    } else {
        assert(kind_of(a10, k) =~= p9);
    }
}

proof fn lemma_option_calls_0(o0: Option<Seq<char>>, o1: Option<Seq<char>>, o2: Option<Seq<char>>, o3: Option<Seq<char>>, o4: Option<Seq<char>>, o5: Option<Seq<char>>, o6: Option<Seq<char>>, o7: Option<Seq<char>>, o8: Option<Seq<char>>, o9: Option<Seq<char>>)
    ensures
        (bool_call(o0, true, BoolSetting::HasHeaders) + byte_call(o1, ByteSetting::Delimiter) + byte_call(o2, ByteSetting::Comment) + byte_call(o3, ByteSetting::Quote) + byte_call(o4, ByteSetting::Escape) + bool_call(o5, true, BoolSetting::DoubleQuote) + bool_call(o6, false, BoolSetting::Flexible) + bool_call(o7, true, BoolSetting::Quoting) + terminator_call(o8) + trim_call(o9)).filter(|c: CsvCall| c is HasHeaders) == match o0 {
            Some(v) => seq![CsvCall::HasHeaders(v != "false"@)],
            None => Seq::<CsvCall>::empty(),
        },
{
    reveal_strlit("true");
    reveal_strlit("false");
    assert((|c: CsvCall| c is HasHeaders) =~= (|c: CsvCall| call_kind(c) == 0));
    lemma_kind_filter(o0, o1, o2, o3, o4, o5, o6, o7, o8, o9, 0);
    assert(part_of(o0, o1, o2, o3, o4, o5, o6, o7, o8, o9, 0) == bool_call(o0, true, BoolSetting::HasHeaders));
    assert(("true"@).len() == 4 && ("false"@).len() == 5);
}

proof fn lemma_option_calls_1(o0: Option<Seq<char>>, o1: Option<Seq<char>>, o2: Option<Seq<char>>, o3: Option<Seq<char>>, o4: Option<Seq<char>>, o5: Option<Seq<char>>, o6: Option<Seq<char>>, o7: Option<Seq<char>>, o8: Option<Seq<char>>, o9: Option<Seq<char>>)
    ensures
        (bool_call(o0, true, BoolSetting::HasHeaders) + byte_call(o1, ByteSetting::Delimiter) + byte_call(o2, ByteSetting::Comment) + byte_call(o3, ByteSetting::Quote) + byte_call(o4, ByteSetting::Escape) + bool_call(o5, true, BoolSetting::DoubleQuote) + bool_call(o6, false, BoolSetting::Flexible) + bool_call(o7, true, BoolSetting::Quoting) + terminator_call(o8) + trim_call(o9)).filter(|c: CsvCall| c is Delimiter) == match o1 {
            Some(v) => if v.len() > 0 {
                seq![CsvCall::Delimiter(((v[0] as u32) % 256) as u8)]
            } else {
                Seq::<CsvCall>::empty()
            },
            None => Seq::<CsvCall>::empty(),
        },
{
    reveal_strlit("true");
    reveal_strlit("false");
    assert((|c: CsvCall| c is Delimiter) =~= (|c: CsvCall| call_kind(c) == 1));
    lemma_kind_filter(o0, o1, o2, o3, o4, o5, o6, o7, o8, o9, 1);
    assert(part_of(o0, o1, o2, o3, o4, o5, o6, o7, o8, o9, 1) == byte_call(o1, ByteSetting::Delimiter));
}

proof fn lemma_option_calls_2(o0: Option<Seq<char>>, o1: Option<Seq<char>>, o2: Option<Seq<char>>, o3: Option<Seq<char>>, o4: Option<Seq<char>>, o5: Option<Seq<char>>, o6: Option<Seq<char>>, o7: Option<Seq<char>>, o8: Option<Seq<char>>, o9: Option<Seq<char>>)
    ensures
        (bool_call(o0, true, BoolSetting::HasHeaders) + byte_call(o1, ByteSetting::Delimiter) + byte_call(o2, ByteSetting::Comment) + byte_call(o3, ByteSetting::Quote) + byte_call(o4, ByteSetting::Escape) + bool_call(o5, true, BoolSetting::DoubleQuote) + bool_call(o6, false, BoolSetting::Flexible) + bool_call(o7, true, BoolSetting::Quoting) + terminator_call(o8) + trim_call(o9)).filter(|c: CsvCall| c is Comment) == match o2 {
            Some(v) => if v.len() > 0 {
                seq![CsvCall::Comment(((v[0] as u32) % 256) as u8)]
            } else {
                Seq::<CsvCall>::empty()
            },
            None => Seq::<CsvCall>::empty(),
        },
{
    reveal_strlit("true");
    reveal_strlit("false");
    assert((|c: CsvCall| c is Comment) =~= (|c: CsvCall| call_kind(c) == 2));
    lemma_kind_filter(o0, o1, o2, o3, o4, o5, o6, o7, o8, o9, 2);
    assert(part_of(o0, o1, o2, o3, o4, o5, o6, o7, o8, o9, 2) == byte_call(o2, ByteSetting::Comment));
}

proof fn lemma_option_calls_3(o0: Option<Seq<char>>, o1: Option<Seq<char>>, o2: Option<Seq<char>>, o3: Option<Seq<char>>, o4: Option<Seq<char>>, o5: Option<Seq<char>>, o6: Option<Seq<char>>, o7: Option<Seq<char>>, o8: Option<Seq<char>>, o9: Option<Seq<char>>)
    ensures
        (bool_call(o0, true, BoolSetting::HasHeaders) + byte_call(o1, ByteSetting::Delimiter) + byte_call(o2, ByteSetting::Comment) + byte_call(o3, ByteSetting::Quote) + byte_call(o4, ByteSetting::Escape) + bool_call(o5, true, BoolSetting::DoubleQuote) + bool_call(o6, false, BoolSetting::Flexible) + bool_call(o7, true, BoolSetting::Quoting) + terminator_call(o8) + trim_call(o9)).filter(|c: CsvCall| c is Quote) == match o3 {
            Some(v) => if v.len() > 0 {
                seq![CsvCall::Quote(((v[0] as u32) % 256) as u8)]
            } else {
                Seq::<CsvCall>::empty()
            },
            None => Seq::<CsvCall>::empty(),
        },
{
    reveal_strlit("true");
    reveal_strlit("false");
    assert((|c: CsvCall| c is Quote) =~= (|c: CsvCall| call_kind(c) == 3));
    lemma_kind_filter(o0, o1, o2, o3, o4, o5, o6, o7, o8, o9, 3);
    assert(part_of(o0, o1, o2, o3, o4, o5, o6, o7, o8, o9, 3) == byte_call(o3, ByteSetting::Quote));
}

proof fn lemma_option_calls_4(o0: Option<Seq<char>>, o1: Option<Seq<char>>, o2: Option<Seq<char>>, o3: Option<Seq<char>>, o4: Option<Seq<char>>, o5: Option<Seq<char>>, o6: Option<Seq<char>>, o7: Option<Seq<char>>, o8: Option<Seq<char>>, o9: Option<Seq<char>>)
    ensures
        (bool_call(o0, true, BoolSetting::HasHeaders) + byte_call(o1, ByteSetting::Delimiter) + byte_call(o2, ByteSetting::Comment) + byte_call(o3, ByteSetting::Quote) + byte_call(o4, ByteSetting::Escape) + bool_call(o5, true, BoolSetting::DoubleQuote) + bool_call(o6, false, BoolSetting::Flexible) + bool_call(o7, true, BoolSetting::Quoting) + terminator_call(o8) + trim_call(o9)).filter(|c: CsvCall| c is Escape) == match o4 {
            Some(v) => if v.len() > 0 {
                seq![CsvCall::Escape(((v[0] as u32) % 256) as u8)]
            } else {
                Seq::<CsvCall>::empty()
            },
            None => Seq::<CsvCall>::empty(),
        },
{
    reveal_strlit("true");
    reveal_strlit("false");
    assert((|c: CsvCall| c is Escape) =~= (|c: CsvCall| call_kind(c) == 4));
    lemma_kind_filter(o0, o1, o2, o3, o4, o5, o6, o7, o8, o9, 4);
    assert(part_of(o0, o1, o2, o3, o4, o5, o6, o7, o8, o9, 4) == byte_call(o4, ByteSetting::Escape));
}

proof fn lemma_option_calls_5(o0: Option<Seq<char>>, o1: Option<Seq<char>>, o2: Option<Seq<char>>, o3: Option<Seq<char>>, o4: Option<Seq<char>>, o5: Option<Seq<char>>, o6: Option<Seq<char>>, o7: Option<Seq<char>>, o8: Option<Seq<char>>, o9: Option<Seq<char>>)
    ensures
        (bool_call(o0, true, BoolSetting::HasHeaders) + byte_call(o1, ByteSetting::Delimiter) + byte_call(o2, ByteSetting::Comment) + byte_call(o3, ByteSetting::Quote) + byte_call(o4, ByteSetting::Escape) + bool_call(o5, true, BoolSetting::DoubleQuote) + bool_call(o6, false, BoolSetting::Flexible) + bool_call(o7, true, BoolSetting::Quoting) + terminator_call(o8) + trim_call(o9)).filter(|c: CsvCall| c is DoubleQuote) == match o5 {
            Some(v) => seq![CsvCall::DoubleQuote(v != "false"@)],
            None => Seq::<CsvCall>::empty(),
        },
{
    reveal_strlit("true");
    reveal_strlit("false");
    assert((|c: CsvCall| c is DoubleQuote) =~= (|c: CsvCall| call_kind(c) == 5));
    lemma_kind_filter(o0, o1, o2, o3, o4, o5, o6, o7, o8, o9, 5);
    assert(part_of(o0, o1, o2, o3, o4, o5, o6, o7, o8, o9, 5) == bool_call(o5, true, BoolSetting::DoubleQuote));
    assert(("true"@).len() == 4 && ("false"@).len() == 5);
}

proof fn lemma_option_calls_6(o0: Option<Seq<char>>, o1: Option<Seq<char>>, o2: Option<Seq<char>>, o3: Option<Seq<char>>, o4: Option<Seq<char>>, o5: Option<Seq<char>>, o6: Option<Seq<char>>, o7: Option<Seq<char>>, o8: Option<Seq<char>>, o9: Option<Seq<char>>)
    ensures
        (bool_call(o0, true, BoolSetting::HasHeaders) + byte_call(o1, ByteSetting::Delimiter) + byte_call(o2, ByteSetting::Comment) + byte_call(o3, ByteSetting::Quote) + byte_call(o4, ByteSetting::Escape) + bool_call(o5, true, BoolSetting::DoubleQuote) + bool_call(o6, false, BoolSetting::Flexible) + bool_call(o7, true, BoolSetting::Quoting) + terminator_call(o8) + trim_call(o9)).filter(|c: CsvCall| c is Flexible) == match o6 {
            Some(v) => seq![CsvCall::Flexible(v == "true"@)],
            None => Seq::<CsvCall>::empty(),
        },
{
    reveal_strlit("true");
    reveal_strlit("false");
    assert((|c: CsvCall| c is Flexible) =~= (|c: CsvCall| call_kind(c) == 6));
    lemma_kind_filter(o0, o1, o2, o3, o4, o5, o6, o7, o8, o9, 6);
    assert(part_of(o0, o1, o2, o3, o4, o5, o6, o7, o8, o9, 6) == bool_call(o6, false, BoolSetting::Flexible));
}

proof fn lemma_option_calls_7(o0: Option<Seq<char>>, o1: Option<Seq<char>>, o2: Option<Seq<char>>, o3: Option<Seq<char>>, o4: Option<Seq<char>>, o5: Option<Seq<char>>, o6: Option<Seq<char>>, o7: Option<Seq<char>>, o8: Option<Seq<char>>, o9: Option<Seq<char>>)
    ensures
        (bool_call(o0, true, BoolSetting::HasHeaders) + byte_call(o1, ByteSetting::Delimiter) + byte_call(o2, ByteSetting::Comment) + byte_call(o3, ByteSetting::Quote) + byte_call(o4, ByteSetting::Escape) + bool_call(o5, true, BoolSetting::DoubleQuote) + bool_call(o6, false, BoolSetting::Flexible) + bool_call(o7, true, BoolSetting::Quoting) + terminator_call(o8) + trim_call(o9)).filter(|c: CsvCall| c is Quoting) == match o7 {
            Some(v) => seq![CsvCall::Quoting(v != "false"@)],
            None => Seq::<CsvCall>::empty(),
        },
{
    reveal_strlit("true");
    reveal_strlit("false");
    assert((|c: CsvCall| c is Quoting) =~= (|c: CsvCall| call_kind(c) == 7));
    lemma_kind_filter(o0, o1, o2, o3, o4, o5, o6, o7, o8, o9, 7);
    assert(part_of(o0, o1, o2, o3, o4, o5, o6, o7, o8, o9, 7) == bool_call(o7, true, BoolSetting::Quoting));
    assert(("true"@).len() == 4 && ("false"@).len() == 5);
}

#[verifier::rlimit(40)]
proof fn lemma_option_calls_8(o0: Option<Seq<char>>, o1: Option<Seq<char>>, o2: Option<Seq<char>>, o3: Option<Seq<char>>, o4: Option<Seq<char>>, o5: Option<Seq<char>>, o6: Option<Seq<char>>, o7: Option<Seq<char>>, o8: Option<Seq<char>>, o9: Option<Seq<char>>)
    ensures
        (bool_call(o0, true, BoolSetting::HasHeaders) + byte_call(o1, ByteSetting::Delimiter) + byte_call(o2, ByteSetting::Comment) + byte_call(o3, ByteSetting::Quote) + byte_call(o4, ByteSetting::Escape) + bool_call(o5, true, BoolSetting::DoubleQuote) + bool_call(o6, false, BoolSetting::Flexible) + bool_call(o7, true, BoolSetting::Quoting) + terminator_call(o8) + trim_call(o9)).filter(|c: CsvCall| c is Terminator) == match o8 {
            Some(v) => if v == "\\n"@ || v == "\n"@ {
                seq![CsvCall::Terminator(TerminatorCode::Any(10))]
            } else if v == "\\r\\n"@ || v == "\r\n"@ || v == "CRLF"@ {
                seq![CsvCall::Terminator(TerminatorCode::Crlf)]
            } else if v.len() > 0 {
                seq![CsvCall::Terminator(TerminatorCode::Any(((v[0] as u32) % 256) as u8))]
            } else {
                Seq::<CsvCall>::empty()
            },
            None => Seq::<CsvCall>::empty(),
        },
{
    reveal_strlit("true");
    reveal_strlit("false");
    assert((|c: CsvCall| c is Terminator) =~= (|c: CsvCall| call_kind(c) == 8));
    lemma_kind_filter(o0, o1, o2, o3, o4, o5, o6, o7, o8, o9, 8);
    assert(part_of(o0, o1, o2, o3, o4, o5, o6, o7, o8, o9, 8) == terminator_call(o8));
}

#[verifier::rlimit(40)]
proof fn lemma_option_calls_9(o0: Option<Seq<char>>, o1: Option<Seq<char>>, o2: Option<Seq<char>>, o3: Option<Seq<char>>, o4: Option<Seq<char>>, o5: Option<Seq<char>>, o6: Option<Seq<char>>, o7: Option<Seq<char>>, o8: Option<Seq<char>>, o9: Option<Seq<char>>)
    ensures
        (bool_call(o0, true, BoolSetting::HasHeaders) + byte_call(o1, ByteSetting::Delimiter) + byte_call(o2, ByteSetting::Comment) + byte_call(o3, ByteSetting::Quote) + byte_call(o4, ByteSetting::Escape) + bool_call(o5, true, BoolSetting::DoubleQuote) + bool_call(o6, false, BoolSetting::Flexible) + bool_call(o7, true, BoolSetting::Quoting) + terminator_call(o8) + trim_call(o9)).filter(|c: CsvCall| c is Trim) == match o9 {
            Some(v) => if lower_case(v) == "headers"@ {
                seq![CsvCall::Trim(TrimCode::Headers)]
            } else if lower_case(v) == "fields"@ {
                seq![CsvCall::Trim(TrimCode::Fields)]
            } else if lower_case(v) == "all"@ {
                seq![CsvCall::Trim(TrimCode::All)]
            } else {
                Seq::<CsvCall>::empty()
            },
            None => Seq::<CsvCall>::empty(),
        },
{
    match o9 {
        Some(v) => {
            let l = lower_case(v);
            if l == "headers"@ {
                assert(trim_of(l) == Some(TrimCode::Headers));
            } else if l == "fields"@ {
                assert(trim_of(l) == Some(TrimCode::Fields));
            } else if l == "all"@ {
                assert(trim_of(l) == Some(TrimCode::All));
            } else {
                assert(trim_of(l) is None);
            }
        },
        None => {},
    }
    assert((|c: CsvCall| c is Trim) =~= (|c: CsvCall| call_kind(c) == 9));
    lemma_kind_filter(o0, o1, o2, o3, o4, o5, o6, o7, o8, o9, 9);
    assert(part_of(o0, o1, o2, o3, o4, o5, o6, o7, o8, o9, 9) == trim_call(o9));
}

/// What each CSV option sets, whatever the other options: a one-byte
/// option (`delimiter`, `comment`, `quote`, `escape`) given as a non-empty
/// string sets that setting, and only that one, to its first character's
/// byte; `has_headers`, `double_quote` and `quoting` are on unless given as
/// `false`, `flexible` only when given as `true`; `terminator` is a line
/// feed for `\n`, CR LF for `\r\n` or `CRLF`, else its first byte;
/// `trim` names, in any case, headers, fields or all. An option that is not
/// given as a string sets nothing.
pub proof fn lemma_csv_option_calls(opts: Seq<SpecConnectorOption>)
    ensures
        csv_calls(opts).filter(|c: CsvCall| c is HasHeaders) == match option_string(opts, "has_headers"@) {
            Some(v) => seq![CsvCall::HasHeaders(v != "false"@)],
            None => Seq::<CsvCall>::empty(),
        },
        csv_calls(opts).filter(|c: CsvCall| c is Delimiter) == match option_string(opts, "delimiter"@) {
            Some(v) => if v.len() > 0 {
                seq![CsvCall::Delimiter(((v[0] as u32) % 256) as u8)]
            } else {
                Seq::<CsvCall>::empty()
            },
            None => Seq::<CsvCall>::empty(),
        },
        csv_calls(opts).filter(|c: CsvCall| c is Comment) == match option_string(opts, "comment"@) {
            Some(v) => if v.len() > 0 {
                seq![CsvCall::Comment(((v[0] as u32) % 256) as u8)]
            } else {
                Seq::<CsvCall>::empty()
            },
            None => Seq::<CsvCall>::empty(),
        },
        csv_calls(opts).filter(|c: CsvCall| c is Quote) == match option_string(opts, "quote"@) {
            Some(v) => if v.len() > 0 {
                seq![CsvCall::Quote(((v[0] as u32) % 256) as u8)]
            } else {
                Seq::<CsvCall>::empty()
            },
            None => Seq::<CsvCall>::empty(),
        },
        csv_calls(opts).filter(|c: CsvCall| c is Escape) == match option_string(opts, "escape"@) {
            Some(v) => if v.len() > 0 {
                seq![CsvCall::Escape(((v[0] as u32) % 256) as u8)]
            } else {
                Seq::<CsvCall>::empty()
            },
            None => Seq::<CsvCall>::empty(),
        },
        csv_calls(opts).filter(|c: CsvCall| c is DoubleQuote) == match option_string(opts, "double_quote"@) {
            Some(v) => seq![CsvCall::DoubleQuote(v != "false"@)],
            None => Seq::<CsvCall>::empty(),
        },
        csv_calls(opts).filter(|c: CsvCall| c is Flexible) == match option_string(opts, "flexible"@) {
            Some(v) => seq![CsvCall::Flexible(v == "true"@)],
            None => Seq::<CsvCall>::empty(),
        },
        csv_calls(opts).filter(|c: CsvCall| c is Quoting) == match option_string(opts, "quoting"@) {
            Some(v) => seq![CsvCall::Quoting(v != "false"@)],
            None => Seq::<CsvCall>::empty(),
        },
        csv_calls(opts).filter(|c: CsvCall| c is Terminator) == match option_string(opts, "terminator"@) {
            Some(v) => if v == "\\n"@ || v == "\n"@ {
                seq![CsvCall::Terminator(TerminatorCode::Any(10))]
            } else if v == "\\r\\n"@ || v == "\r\n"@ || v == "CRLF"@ {
                seq![CsvCall::Terminator(TerminatorCode::Crlf)]
            } else if v.len() > 0 {
                seq![CsvCall::Terminator(TerminatorCode::Any(((v[0] as u32) % 256) as u8))]
            } else {
                Seq::<CsvCall>::empty()
            },
            None => Seq::<CsvCall>::empty(),
        },
        csv_calls(opts).filter(|c: CsvCall| c is Trim) == match option_string(opts, "trim"@) {
            Some(v) => if lower_case(v) == "headers"@ {
                seq![CsvCall::Trim(TrimCode::Headers)]
            } else if lower_case(v) == "fields"@ {
                seq![CsvCall::Trim(TrimCode::Fields)]
            } else if lower_case(v) == "all"@ {
                seq![CsvCall::Trim(TrimCode::All)]
            } else {
                Seq::<CsvCall>::empty()
            },
            None => Seq::<CsvCall>::empty(),
        },
{
    assert(csv_calls(opts) === bool_call(option_string(opts, "has_headers"@), true, BoolSetting::HasHeaders) + byte_call(option_string(opts, "delimiter"@), ByteSetting::Delimiter) + byte_call(option_string(opts, "comment"@), ByteSetting::Comment) + byte_call(option_string(opts, "quote"@), ByteSetting::Quote) + byte_call(option_string(opts, "escape"@), ByteSetting::Escape) + bool_call(option_string(opts, "double_quote"@), true, BoolSetting::DoubleQuote) + bool_call(option_string(opts, "flexible"@), false, BoolSetting::Flexible) + bool_call(option_string(opts, "quoting"@), true, BoolSetting::Quoting) + terminator_call(option_string(opts, "terminator"@)) + trim_call(option_string(opts, "trim"@)));
    lemma_option_calls_0(option_string(opts, "has_headers"@), option_string(opts, "delimiter"@), option_string(opts, "comment"@), option_string(opts, "quote"@), option_string(opts, "escape"@), option_string(opts, "double_quote"@), option_string(opts, "flexible"@), option_string(opts, "quoting"@), option_string(opts, "terminator"@), option_string(opts, "trim"@));
    lemma_option_calls_1(option_string(opts, "has_headers"@), option_string(opts, "delimiter"@), option_string(opts, "comment"@), option_string(opts, "quote"@), option_string(opts, "escape"@), option_string(opts, "double_quote"@), option_string(opts, "flexible"@), option_string(opts, "quoting"@), option_string(opts, "terminator"@), option_string(opts, "trim"@));
    lemma_option_calls_2(option_string(opts, "has_headers"@), option_string(opts, "delimiter"@), option_string(opts, "comment"@), option_string(opts, "quote"@), option_string(opts, "escape"@), option_string(opts, "double_quote"@), option_string(opts, "flexible"@), option_string(opts, "quoting"@), option_string(opts, "terminator"@), option_string(opts, "trim"@));
    lemma_option_calls_3(option_string(opts, "has_headers"@), option_string(opts, "delimiter"@), option_string(opts, "comment"@), option_string(opts, "quote"@), option_string(opts, "escape"@), option_string(opts, "double_quote"@), option_string(opts, "flexible"@), option_string(opts, "quoting"@), option_string(opts, "terminator"@), option_string(opts, "trim"@));
    lemma_option_calls_4(option_string(opts, "has_headers"@), option_string(opts, "delimiter"@), option_string(opts, "comment"@), option_string(opts, "quote"@), option_string(opts, "escape"@), option_string(opts, "double_quote"@), option_string(opts, "flexible"@), option_string(opts, "quoting"@), option_string(opts, "terminator"@), option_string(opts, "trim"@));
    lemma_option_calls_5(option_string(opts, "has_headers"@), option_string(opts, "delimiter"@), option_string(opts, "comment"@), option_string(opts, "quote"@), option_string(opts, "escape"@), option_string(opts, "double_quote"@), option_string(opts, "flexible"@), option_string(opts, "quoting"@), option_string(opts, "terminator"@), option_string(opts, "trim"@));
    lemma_option_calls_6(option_string(opts, "has_headers"@), option_string(opts, "delimiter"@), option_string(opts, "comment"@), option_string(opts, "quote"@), option_string(opts, "escape"@), option_string(opts, "double_quote"@), option_string(opts, "flexible"@), option_string(opts, "quoting"@), option_string(opts, "terminator"@), option_string(opts, "trim"@));
    lemma_option_calls_7(option_string(opts, "has_headers"@), option_string(opts, "delimiter"@), option_string(opts, "comment"@), option_string(opts, "quote"@), option_string(opts, "escape"@), option_string(opts, "double_quote"@), option_string(opts, "flexible"@), option_string(opts, "quoting"@), option_string(opts, "terminator"@), option_string(opts, "trim"@));
    lemma_option_calls_8(option_string(opts, "has_headers"@), option_string(opts, "delimiter"@), option_string(opts, "comment"@), option_string(opts, "quote"@), option_string(opts, "escape"@), option_string(opts, "double_quote"@), option_string(opts, "flexible"@), option_string(opts, "quoting"@), option_string(opts, "terminator"@), option_string(opts, "trim"@));
    lemma_option_calls_9(option_string(opts, "has_headers"@), option_string(opts, "delimiter"@), option_string(opts, "comment"@), option_string(opts, "quote"@), option_string(opts, "escape"@), option_string(opts, "double_quote"@), option_string(opts, "flexible"@), option_string(opts, "quoting"@), option_string(opts, "terminator"@), option_string(opts, "trim"@));
}

/// How a source is read, whatever its other options: through the variable
/// `name_source`, into the record type named after it; a CSV source from its
/// `path` option's value when given as a string, else `data.csv`; a Kafka
/// source from its `brokers`, `topic` and `group_id` options' values, else
/// `localhost:9092`, `events` and `consumer_group`; a source of any other
/// connector type is not read.
#[verifier::rlimit(40)]
pub proof fn lemma_source_init(r: SourceInit, source: SourceDef)
    requires
        is_source_init(r, source),
    ensures
        ({
            let opts = options_view(source.connector.options@);
            let ty = source.connector.connector_type@;
            &&& r.var_name@ == source.name@ + seq!['_', 's', 'o', 'u', 'r', 'c', 'e']
            &&& r.struct_name@ == capitalized(source.name@)
            &&& ty == "csv"@ ==> r.stream is Csv && r.stream->Csv_0.path@ == match option_string(
                opts,
                "path"@,
            ) {
                Some(v) => v,
                None => "data.csv"@,
            }
            &&& ty == "kafka"@ ==> r.stream is Kafka && r.stream->Kafka_0.brokers@ == match option_string(
                opts,
                "brokers"@,
            ) {
                Some(v) => v,
                None => "localhost:9092"@,
            } && r.stream->Kafka_0.topic@ == match option_string(opts, "topic"@) {
                Some(v) => v,
                None => "events"@,
            } && r.stream->Kafka_0.group_id@ == match option_string(opts, "group_id"@) {
                Some(v) => v,
                None => "consumer_group"@,
            }
            &&& ty != "csv"@ && ty != "kafka"@ ==> r.stream is Unknown
        }),
{
    reveal_strlit("csv");
    reveal_strlit("kafka");
    reveal_strlit("_source");
    assert(("csv"@).len() == 3 && ("kafka"@).len() == 5);
    match r.stream {
        SourceStream::Csv(_) => {},
        SourceStream::Kafka(_) => {},
        SourceStream::Unknown => {},
    }
}

/// A record type has one field per schema field, in order, named as it and
/// held in its column type's Rust type.
pub proof fn lemma_record_fields(schema: Seq<SpecFieldDef>)
    ensures
        record_fields(schema).len() == schema.len(),
        forall|i: int|
            0 <= i < schema.len() ==> #[trigger] record_fields(schema)[i] == (
                schema[i].name,
                rust_type_name(schema[i].data_type),
            ),
{
}

} // verus!
