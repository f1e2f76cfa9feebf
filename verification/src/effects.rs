//! The commands that the controller sends to the OpenRGB effects plugin, and
//! the reading of the plugin's list of active effects.

use vstd::prelude::*;
use vstd::utf8::*;
use crate::wire::{encode_plugin_request, le_u16_at, le_u16_bytes, push_le_u16, request_body, request_header, PluginRequest};

verus! {

/// Index of the effects plugin among the SDK server's plugins.
pub const EFFECTS_PLUGIN: u32 = 0;

/// Plugin command: list the effects.
pub const CMD_LIST_EFFECTS: u32 = 0;

/// Plugin command: switch all effects off ("master off").
pub const CMD_MASTER_OFF: u32 = 10;

/// Plugin command: stop the effect with the given name.
pub const CMD_STOP_EFFECT: u32 = 21;

/// Plugin command: load the effect profile with the given name.
pub const CMD_LOAD_PROFILE: u32 = 23;

/// A command for an SDK plugin: the plugin, the command id and its payload.
pub struct PluginCommand {
    pub plugin_idx: u32,
    pub cmd_id: u32,
    pub payload: Vec<u8>,
}

/// `c` is command `cmd_id` to the effects plugin, with `payload`.
pub open spec fn is_effects_command(c: PluginCommand, cmd_id: u32, payload: Seq<u8>) -> bool {
    &&& c.plugin_idx == EFFECTS_PLUGIN
    &&& c.cmd_id == cmd_id
    &&& c.payload@ == payload
}

impl PluginCommand {
    /// The request that carries this command.
    pub fn encode(&self) -> (r: PluginRequest)
        ensures
            r.body@ == request_body(self.cmd_id, self.payload@),
            r.header@ == request_header(self.plugin_idx, r.body@.len()),
    {
        encode_plugin_request(self.plugin_idx, self.cmd_id, self.payload.as_slice())
    }
}

/// A name as the plugin takes it in a payload: a little-endian `u16` length,
/// then the name's bytes and a terminating NUL, which the length counts. The
/// length is reduced to 16 bits.
pub open spec fn name_field(bytes: Seq<u8>) -> Seq<u8> {
    le_u16_bytes((bytes.len() + 1) as u16) + bytes + seq![0u8]
}

/// The byte layout of a name field: two length bytes, the name's bytes, one
/// NUL; when the length fits in 16 bits it is the number of name bytes plus
/// one, low byte first.
pub proof fn lemma_name_field_layout(b: Seq<u8>)
    ensures
        name_field(b).len() == b.len() + 3,
        name_field(b).subrange(2, b.len() + 2int) == b,
        name_field(b)[b.len() + 2int] == 0,
        b.len() + 1 < 65536 ==> name_field(b)[0] == (b.len() + 1) % 256 && name_field(b)[1] == (
        b.len() + 1) / 256,
{
    let f = name_field(b);
    assert(f.subrange(2, b.len() + 2int) =~= b);
}

/// A list reply holding one record whose name field is a name's bytes and
/// one NUL (its 16-bit length, low byte first, counting the NUL), an empty
/// description and any "enabled" byte names exactly those bytes: the NUL is
/// not part of the name, and nothing else is dropped.
pub proof fn lemma_nul_terminated_name_read_back(head: Seq<u8>, b: Seq<u8>, enabled: u8)
    requires
        head.len() == 8,
        b.len() + 1 < 65536,
    ensures
        effect_names(
            head + seq![1u8, 0u8] + seq![((b.len() + 1) % 256) as u8, ((b.len() + 1) / 256) as u8]
                + b + seq![0u8, 0u8, 0u8, enabled],
        ) == seq![b],
{
    let data = head + seq![1u8, 0u8] + seq![
        ((b.len() + 1) % 256) as u8,
        ((b.len() + 1) / 256) as u8,
    ] + b + seq![0u8, 0u8, 0u8, enabled];
    assert(data.len() == b.len() + 16);
    assert(data[8] == 1u8);
    assert(data[9] == 0u8);
    assert(le_u16_at(data, 8) == 1);
    assert(data[10] == ((b.len() + 1) % 256) as u8);
    assert(data[11] == ((b.len() + 1) / 256) as u8);
    assert(le_u16_at(data, 10) == b.len() + 1);
    let end: int = 13 + b.len() as int;
    assert(data.subrange(12, end) =~= b + seq![0u8]);
    assert(strip_nul(b + seq![0u8]) =~= b);
    assert(data[end] == 0u8);
    assert(data[end + 1] == 0u8);
    assert(le_u16_at(data, end) == 0);
    assert(names_from(data, end + 3, 0) == Seq::<Seq<u8>>::empty());
    assert(names_from(data, 10, 1) =~= seq![b]);
}

/// Builds the name field of `name`.
fn encode_name_field(name: &str) -> (payload: Vec<u8>)
    ensures
        payload@ == name_field(encode_utf8(name@)),
{
    let bytes = name.as_bytes();
    let mut field: Vec<u8> = Vec::new();
    let mut i: usize = 0;
    while i < bytes.len()
        invariant
            bytes@ == encode_utf8(name@),
            i <= bytes@.len(),
            field@ == bytes@.subrange(0, i as int),
        decreases bytes@.len() - i,
    {
        field.push(bytes[i]);
        i = i + 1;
        assert(field@ =~= bytes@.subrange(0, i as int));
    }
    field.push(0);
    let mut payload: Vec<u8> = Vec::new();
    let n = field.len();
    push_le_u16(&mut payload, n as u16);
    let mut j: usize = 0;
    while j < field.len()
        invariant
            bytes@ == encode_utf8(name@),
            field@ == bytes@ + seq![0u8],
            j <= field@.len(),
            payload@ == le_u16_bytes((bytes@.len() + 1) as u16) + field@.subrange(0, j as int),
        decreases field@.len() - j,
    {
        payload.push(field[j]);
        j = j + 1;
        assert(payload@ =~= le_u16_bytes((bytes@.len() + 1) as u16) + field@.subrange(
            0,
            j as int,
        ));
    }
    assert(field@.subrange(0, field@.len() as int) =~= field@);
    assert(payload@ =~= name_field(encode_utf8(name@)));
    payload
}

/// The command that asks the plugin for its list of effects.
pub fn list_effects_command() -> (c: PluginCommand)
    ensures
        is_effects_command(c, CMD_LIST_EFFECTS, seq![]),
{
    let payload: Vec<u8> = Vec::new();
    PluginCommand { plugin_idx: EFFECTS_PLUGIN, cmd_id: CMD_LIST_EFFECTS, payload }
}

/// The command that switches all of the plugin's effects off.
pub fn master_off_command() -> (c: PluginCommand)
    ensures
        is_effects_command(c, CMD_MASTER_OFF, seq![]),
{
    let payload: Vec<u8> = Vec::new();
    PluginCommand { plugin_idx: EFFECTS_PLUGIN, cmd_id: CMD_MASTER_OFF, payload }
}

/// The command that stops the effect called `name`.
pub fn stop_effect_by_name(name: &str) -> (c: PluginCommand)
    ensures
        is_effects_command(c, CMD_STOP_EFFECT, name_field(encode_utf8(name@))),
        c.payload@.len() == encode_utf8(name@).len() + 3,
        c.payload@.subrange(2, encode_utf8(name@).len() + 2int) == encode_utf8(name@),
        c.payload@[encode_utf8(name@).len() + 2int] == 0,
        encode_utf8(name@).len() + 1 < 65536 ==> c.payload@[0] == (encode_utf8(name@).len() + 1)
            % 256 && c.payload@[1] == (encode_utf8(name@).len() + 1) / 256,
{
    let payload = encode_name_field(name);
    proof {
        lemma_name_field_layout(encode_utf8(name@));
    }
    PluginCommand { plugin_idx: EFFECTS_PLUGIN, cmd_id: CMD_STOP_EFFECT, payload }
}

/// The command that loads the effect profile called `name`.
pub fn load_effect_profile(name: &str) -> (c: PluginCommand)
    ensures
        is_effects_command(c, CMD_LOAD_PROFILE, name_field(encode_utf8(name@))),
        c.payload@.len() == encode_utf8(name@).len() + 3,
        c.payload@.subrange(2, encode_utf8(name@).len() + 2int) == encode_utf8(name@),
        c.payload@[encode_utf8(name@).len() + 2int] == 0,
        encode_utf8(name@).len() + 1 < 65536 ==> c.payload@[0] == (encode_utf8(name@).len() + 1)
            % 256 && c.payload@[1] == (encode_utf8(name@).len() + 1) / 256,
{
    let payload = encode_name_field(name);
    proof {
        lemma_name_field_layout(encode_utf8(name@));
    }
    PluginCommand { plugin_idx: EFFECTS_PLUGIN, cmd_id: CMD_LOAD_PROFILE, payload }
}

/// What `String::from_utf8_lossy` makes of a byte sequence: its UTF-8
/// characters, each invalid sequence replaced by U+FFFD.
pub uninterp spec fn utf8_lossy(bytes: Seq<u8>) -> Seq<char>;

/// Calls `String::from_utf8_lossy` and takes ownership of the result.
/// Trusted: the result is `utf8_lossy` of the bytes, a function of the bytes
/// alone; and on valid UTF-8 it is the decoded text, since only invalid
/// sequences are replaced. Which replacement characters stand for invalid
/// input is left unsaid.
#[verifier::external_body]
fn decode_utf8_lossy(bytes: &[u8]) -> (s: String)
    ensures
        s@ == utf8_lossy(bytes@),
        valid_utf8(bytes@) ==> s@ == decode_utf8(bytes@),
{
    String::from_utf8_lossy(bytes).into_owned()
}

/// `b` without its last byte if that byte is NUL.
pub open spec fn strip_nul(b: Seq<u8>) -> Seq<u8> {
    if b.len() > 0 && b.last() == 0 {
        b.drop_last()
    } else {
        b
    }
}

/// The effect names (as bytes) in a list reply `data`, read from `offset`
/// where at most `left` records remain.
///
/// A record is a name field (a `u16` length, then that many bytes; a trailing
/// NUL is not part of the name), a description field (a `u16` length, then
/// that many bytes) and an "enabled" byte. A record with an empty name field
/// is only its length. Reading stops at the first field that runs past the
/// end of the data; a name read before that point is kept.
pub open spec fn names_from(data: Seq<u8>, offset: int, left: nat) -> Seq<Seq<u8>>
    decreases left,
{
    if left == 0 || offset + 2 > data.len() {
        seq![]
    } else if le_u16_at(data, offset) == 0 {
        names_from(data, offset + 2, (left - 1) as nat)
    } else {
        let end = offset + 2 + le_u16_at(data, offset);
        if end > data.len() {
            seq![]
        } else {
            let name = strip_nul(data.subrange(offset + 2, end));
            if end + 2 > data.len() {
                seq![name]
            } else {
                let flag = end + 2 + le_u16_at(data, end);
                if flag + 1 > data.len() {
                    seq![name]
                } else {
                    seq![name] + names_from(data, flag + 1, (left - 1) as nat)
                }
            }
        }
    }
}

/// The effect names in the plugin's reply to a list command: bytes 0 to 7
/// hold the subcommand id and a plugin header, bytes 8 and 9 the number of
/// records (a little-endian `u16`), and the records follow. A reply shorter
/// than 10 bytes names no effect.
pub open spec fn effect_names(data: Seq<u8>) -> Seq<Seq<u8>> {
    if data.len() < 10 {
        seq![]
    } else {
        names_from(data, 10, le_u16_at(data, 8) as nat)
    }
}

/// Copies `data[start..end]`, without its last byte if that byte is NUL.
fn name_bytes(data: &[u8], start: usize, end: usize) -> (v: Vec<u8>)
    requires
        start < end <= data@.len(),
    ensures
        v@ == strip_nul(data@.subrange(start as int, end as int)),
{
    let stop = if data[end - 1] == 0 {
        end - 1
    } else {
        end
    };
    let mut v: Vec<u8> = Vec::new();
    let mut i: usize = start;
    while i < stop
        invariant
            start <= i <= stop <= end <= data@.len(),
            v@ == data@.subrange(start as int, i as int),
        decreases stop - i,
    {
        v.push(data[i]);
        i = i + 1;
        assert(v@ =~= data@.subrange(start as int, i as int));
    }
    assert(v@ =~= strip_nul(data@.subrange(start as int, end as int)));
    v
}

/// Reads the names of the active effects from the plugin's reply to a list
/// command, each decoded from UTF-8 as `String::from_utf8_lossy` does.
pub fn get_active_effects(data: &[u8]) -> (effects: Vec<String>)
    ensures
        effects@.len() == effect_names(data@).len(),
        forall|i: int|
            0 <= i < effects@.len() ==> #[trigger] effects@[i]@ == utf8_lossy(
                effect_names(data@)[i],
            ),
        forall|i: int|
            0 <= i < effects@.len() && valid_utf8(effect_names(data@)[i]) ==> #[trigger] effects@[i]@
                == decode_utf8(effect_names(data@)[i]),
{
    let mut effects: Vec<String> = Vec::new();
    let len = data.len();
    if len < 10 {
        return effects;
    }
    let count: u32 = data[8] as u32 + data[9] as u32 * 256;
    let mut offset: usize = 10;
    let mut k: u32 = 0;
    let ghost mut acc: Seq<Seq<u8>> = seq![];
    while k < count
        invariant_except_break
            acc + names_from(data@, offset as int, (count - k) as nat) == effect_names(data@),
        invariant
            len == data@.len(),
            10 <= len,
            count == le_u16_at(data@, 8),
            k <= count,
            offset <= len,
            effects@.len() == acc.len(),
            forall|i: int|
                0 <= i < effects@.len() ==> #[trigger] effects@[i]@ == utf8_lossy(acc[i]),
            forall|i: int|
                0 <= i < effects@.len() && valid_utf8(acc[i]) ==> #[trigger] effects@[i]@
                    == decode_utf8(acc[i]),
        ensures
            acc == effect_names(data@),
        decreases count - k,
    {
        if len - offset < 2 {
            assert(acc =~= acc + seq![]);
            break;
        }
        let name_len: usize = data[offset] as usize + data[offset + 1] as usize * 256;
        assert(name_len == le_u16_at(data@, offset as int));
        if name_len == 0 {
            offset = offset + 2;
            k = k + 1;
        } else {
            if len - offset - 2 < name_len {
                assert(acc =~= acc + seq![]);
                break;
            }
            let end = offset + 2 + name_len;
            let raw = name_bytes(data, offset + 2, end);
            let name = decode_utf8_lossy(raw.as_slice());
            let ghost before = acc;
            proof {
                acc = acc.push(raw@);
            }
            effects.push(name);
            if len - end < 2 {
                assert(acc =~= before + seq![raw@]);
                break;
            }
            let desc_len: usize = data[end] as usize + data[end + 1] as usize * 256;
            assert(desc_len == le_u16_at(data@, end as int));
            if len - end - 2 < desc_len + 1 {
                assert(acc =~= before + seq![raw@]);
                break;
            }
            offset = end + 2 + desc_len + 1;
            k = k + 1;
            assert(acc + names_from(data@, offset as int, (count - k) as nat) =~= before + (
            seq![raw@] + names_from(data@, offset as int, (count - k) as nat)));
        }
    }
    effects
}

/// The effect names that a list reply holds, as text; none when the list
/// could not be had.
pub open spec fn listed_effects(list_reply: Option<&[u8]>) -> Seq<Seq<char>> {
    match list_reply {
        Some(data) => effect_names(data@).map_values(|b: Seq<u8>| utf8_lossy(b)),
        None => seq![],
    }
}

/// The commands that switch all effects off, in the order they are sent:
/// a stop command for each active effect in the order of the plugin's list
/// (given as its reply to the list command, or `None` when the list could
/// not be had), then "master off".
pub fn stop_all_effects(list_reply: Option<&[u8]>) -> (cmds: Vec<PluginCommand>)
    ensures
        cmds@.len() == listed_effects(list_reply).len() + 1,
        forall|i: int|
            0 <= i < cmds@.len() - 1 ==> is_effects_command(
                #[trigger] cmds@[i],
                CMD_STOP_EFFECT,
                name_field(encode_utf8(listed_effects(list_reply)[i])),
            ),
        is_effects_command(cmds@[cmds@.len() - 1], CMD_MASTER_OFF, seq![]),
{
    let ghost names = listed_effects(list_reply);
    let mut cmds: Vec<PluginCommand> = Vec::new();
    match list_reply {
        Some(data) => {
            let effects = get_active_effects(data);
            assert(effects@.len() == names.len());
            let mut i: usize = 0;
            while i < effects.len()
                invariant
                    effects@.len() == names.len(),
                    forall|j: int| 0 <= j < names.len() ==> #[trigger] effects@[j]@ == names[j],
                    i <= effects@.len(),
                    cmds@.len() == i,
                    forall|j: int|
                        0 <= j < i ==> is_effects_command(
                            #[trigger] cmds@[j],
                            CMD_STOP_EFFECT,
                            name_field(encode_utf8(names[j])),
                        ),
                decreases effects@.len() - i,
            {
                let c = stop_effect_by_name(effects[i].as_str());
                cmds.push(c);
                i = i + 1;
            }
        },
        None => {},
    }
    cmds.push(master_off_command());
    cmds
}

/// One record of a list reply: the effect's name field, its description
/// field and its "enabled" byte.
pub open spec fn list_record(name: Seq<u8>, desc: Seq<u8>, enabled: u8) -> Seq<u8> {
    name_field(name) + le_u16_bytes(desc.len() as u16) + desc + seq![enabled]
}

/// The records of a list reply for `entries` (name, description, enabled).
pub open spec fn list_records(entries: Seq<(Seq<u8>, Seq<u8>, u8)>) -> Seq<u8>
    decreases entries.len(),
{
    if entries.len() == 0 {
        seq![]
    } else {
        list_record(entries[0].0, entries[0].1, entries[0].2) + list_records(entries.drop_first())
    }
}

/// A record whose fields fit their 16-bit lengths.
pub open spec fn record_fits(e: (Seq<u8>, Seq<u8>, u8)) -> bool {
    e.0.len() + 1 < 65536 && e.1.len() < 65536
}

proof fn lemma_names_from_records(front: Seq<u8>, entries: Seq<(Seq<u8>, Seq<u8>, u8)>)
    requires
        forall|i: int| 0 <= i < entries.len() ==> record_fits(#[trigger] entries[i]),
    ensures
        names_from(front + list_records(entries), front.len() as int, entries.len())
            == entries.map_values(|e: (Seq<u8>, Seq<u8>, u8)| e.0),
    decreases entries.len(),
{
    let names = entries.map_values(|e: (Seq<u8>, Seq<u8>, u8)| e.0);
    if entries.len() == 0 {
        assert(names =~= seq![]);
    } else {
        let (name, desc, enabled) = entries[0];
        assert(record_fits(entries[0]));
        let rest = entries.drop_first();
        assert forall|i: int| 0 <= i < rest.len() implies record_fits(#[trigger] rest[i]) by {
            assert(rest[i] == entries[i + 1]);
        }
        let rec = list_record(name, desc, enabled);
        let front2 = front + rec;
        let data = front + list_records(entries);
        assert(data =~= front2 + list_records(rest));
        lemma_names_from_records(front2, rest);
        let off = front.len() as int;
        let nl = (name.len() + 1) as u16;
        assert(nl == name.len() + 1);
        assert(data[off] == le_u16_bytes(nl)[0]);
        assert(data[off + 1] == le_u16_bytes(nl)[1]);
        crate::wire::lemma_le_u16_roundtrip(nl);
        assert(le_u16_at(data, off) == name.len() + 1);
        let end = off + 2 + name.len() + 1;
        assert(data.subrange(off + 2, end) =~= name + seq![0u8]);
        assert(strip_nul(name + seq![0u8]) =~= name);
        let dl = desc.len() as u16;
        assert(data[end] == le_u16_bytes(dl)[0]);
        assert(data[end + 1] == le_u16_bytes(dl)[1]);
        crate::wire::lemma_le_u16_roundtrip(dl);
        assert(le_u16_at(data, end) == desc.len());
        let flag = end + 2 + desc.len();
        assert(flag + 1 == front2.len());
        assert(names =~= seq![name] + rest.map_values(|e: (Seq<u8>, Seq<u8>, u8)| e.0));
    }
}

/// A list reply names exactly the effects whose records it holds, in order:
/// reading back the records that the plugin writes (the name in the same
/// NUL-terminated, length-prefixed field that the stop and load commands
/// carry) gives their names, whatever the first 8 bytes, the descriptions
/// and the "enabled" bytes hold, as long as each length fits its 16 bits.
pub proof fn lemma_list_reply_roundtrip(head: Seq<u8>, entries: Seq<(Seq<u8>, Seq<u8>, u8)>)
    requires
        head.len() == 8,
        entries.len() < 65536,
        forall|i: int| 0 <= i < entries.len() ==> record_fits(#[trigger] entries[i]),
    ensures
        effect_names(head + le_u16_bytes(entries.len() as u16) + list_records(entries))
            == entries.map_values(|e: (Seq<u8>, Seq<u8>, u8)| e.0),
{
    let front = head + le_u16_bytes(entries.len() as u16);
    let data = front + list_records(entries);
    lemma_names_from_records(front, entries);
    crate::wire::lemma_le_u16_roundtrip(entries.len() as u16);
    assert(data[8] == le_u16_bytes(entries.len() as u16)[0]);
    assert(data[9] == le_u16_bytes(entries.len() as u16)[1]);
    assert(le_u16_at(data, 8) == entries.len());
}

/// An effect name written in the field that the stop and load commands use
/// reads back from a list reply as the same text: the reply names exactly
/// its UTF-8 bytes, which are valid UTF-8 and decode to the name, so
/// `get_active_effects` returns the name itself.
pub proof fn lemma_effect_name_text_roundtrip(
    head: Seq<u8>,
    name: Seq<char>,
    desc: Seq<u8>,
    enabled: u8,
)
    requires
        head.len() == 8,
        encode_utf8(name).len() + 1 < 65536,
        desc.len() < 65536,
    ensures
        effect_names(head + le_u16_bytes(1) + list_record(encode_utf8(name), desc, enabled))
            == seq![encode_utf8(name)],
        valid_utf8(encode_utf8(name)),
        decode_utf8(encode_utf8(name)) == name,
{
    let entries = seq![(encode_utf8(name), desc, enabled)];
    assert(record_fits(entries[0]));
    lemma_list_reply_roundtrip(head, entries);
    assert(list_records(entries.drop_first()) =~= Seq::<u8>::empty());
    assert(list_records(entries) =~= list_record(encode_utf8(name), desc, enabled));
    assert(entries.map_values(|e: (Seq<u8>, Seq<u8>, u8)| e.0) =~= seq![encode_utf8(name)]);
    encode_utf8_valid_utf8(name);
    encode_utf8_decode_utf8(name);
}

} // verus!
