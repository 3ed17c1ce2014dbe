//! Reading a written FBX file back.
//!
//! A reader goes through the file line by line. It notes the head of every
//! object with its number, every list of values with the object and the name it
//! stands under, every property, every declared count, and every connection.
use vstd::prelude::*;
use crate::bytes;
use crate::mesh::{Influence, SkinnedMesh, VertexInfluences};
use crate::reading;
use crate::skeleton::Bone;
use crate::text;
use super::fbx;
use super::fbx::{Decimal, FbxNumbers};

verus! {

/// The head of an object: its kind, its number, and what follows.
pub ghost struct Head {
    pub kind: Seq<char>,
    pub id: Seq<char>,
    pub rest: Seq<char>,
}

/// A list of values: the number of its object, its name, its declared length,
/// and its values.
pub ghost struct List {
    pub owner: Seq<char>,
    pub name: Seq<char>,
    pub count: Seq<char>,
    pub values: Seq<Seq<char>>,
}

/// A property of an object: its fields, the first of which is its name.
pub ghost struct Property {
    pub owner: Seq<char>,
    pub fields: Seq<Seq<char>>,
}

/// What a reader knows.
#[verifier::ext_equal]
pub ghost struct FbxReading {
    pub heads: Seq<Head>,
    pub lists: Seq<List>,
    pub properties: Seq<Property>,
    pub links: Seq<Seq<Seq<char>>>,
    pub counts: Seq<Seq<Seq<char>>>,
    /// The object whose lines are being read.
    pub owner: Seq<char>,
    /// The name of the list that comes next.
    pub name: Seq<char>,
    /// Its declared length.
    pub count: Seq<char>,
}

/// Nothing read yet.
pub open spec fn unread() -> FbxReading {
    FbxReading {
        heads: Seq::empty(),
        lists: Seq::empty(),
        properties: Seq::empty(),
        links: Seq::empty(),
        counts: Seq::empty(),
        owner: Seq::empty(),
        name: Seq::empty(),
        count: Seq::empty(),
    }
}

/// With the head of an object, whose number ends at the first comma.
pub open spec fn with_head(known: FbxReading, kind: Seq<char>, rest: Seq<char>) -> FbxReading {
    let id = reading::split(rest, ',')[0];
    FbxReading {
        heads: known.heads.push(Head { kind, id, rest: rest.skip((id.len() + 1) as int) }),
        owner: id,
        ..known
    }
}

/// With the values of the named list.
pub open spec fn with_values(known: FbxReading, values: Seq<char>) -> FbxReading {
    FbxReading {
        lists: known.lists.push(
            List {
                owner: known.owner,
                name: known.name,
                count: known.count,
                values: reading::split(values, ','),
            },
        ),
        ..known
    }
}

/// With a property.
pub open spec fn with_property(known: FbxReading, fields: Seq<char>) -> FbxReading {
    FbxReading {
        properties: known.properties.push(
            Property { owner: known.owner, fields: reading::split(fields, ',') },
        ),
        ..known
    }
}

/// With a connection.
pub open spec fn with_link(known: FbxReading, ends: Seq<char>) -> FbxReading {
    FbxReading { links: known.links.push(reading::split(ends, ',')), ..known }
}

/// With a declared count.
pub open spec fn with_count(known: FbxReading, words: Seq<char>) -> FbxReading {
    FbxReading { counts: known.counts.push(reading::split(words, ' ')), ..known }
}

/// What is left of a line behind its start.
pub open spec fn behind(line: Seq<char>, start: Seq<char>) -> Seq<char> {
    line.skip(start.len() as int)
}

/// What a line adds.
#[verifier::opaque]
pub open spec fn with_line(known: FbxReading, line: Seq<char>) -> FbxReading {
    if reading::begins(line, "\tC: \"OO\","@) {
        with_link(known, behind(line, "\tC: \"OO\","@))
    } else if reading::begins(line, "\t\t\ta: "@) {
        with_values(known, behind(line, "\t\t\ta: "@))
    } else if reading::begins(line, "\t\t\t\ta: "@) {
        with_values(known, behind(line, "\t\t\t\ta: "@))
    } else if reading::begins(line, "\tGeometry: "@) {
        with_head(known, "\tGeometry: "@, behind(line, "\tGeometry: "@))
    } else if reading::begins(line, "\tModel: "@) {
        with_head(known, "\tModel: "@, behind(line, "\tModel: "@))
    } else if reading::begins(line, "\tDeformer: "@) {
        with_head(known, "\tDeformer: "@, behind(line, "\tDeformer: "@))
    } else if reading::begins(line, "\tPose: "@) {
        with_head(known, "\tPose: "@, behind(line, "\tPose: "@))
    } else if reading::begins(line, "\t\t\tNode: "@) {
        FbxReading { owner: behind(line, "\t\t\tNode: "@), ..known }
    } else if reading::begins(line, "\t\t\tP: "@) {
        with_property(known, behind(line, "\t\t\tP: "@))
    } else if reading::begins(line, "\tCount: "@) {
        with_count(known, behind(line, "\tCount: "@))
    } else if reading::begins(line, "\tObjectType: "@) {
        with_count(known, behind(line, "\tObjectType: "@))
    } else if reading::begins(line, "\t\tNbPoseNodes: "@) {
        with_count(known, behind(line, "\t\tNbPoseNodes: "@))
    } else if reading::begins(line, "\t;"@) {
        known
    } else if reading::split(line, '*').len() == 2 {
        FbxReading { name: reading::split(line, '*')[0], count: reading::split(line, '*')[1], ..known }
    } else {
        known
    }
}

/// The step of the reader.
pub open spec fn fbx_step() -> spec_fn(FbxReading, Seq<char>) -> FbxReading {
    |known: FbxReading, line: Seq<char>| with_line(known, line)
}

/// What is known after a text, and the line begun at its end.
pub open spec fn scanned(s: Seq<char>) -> (FbxReading, Seq<char>) {
    reading::scan(s, unread(), fbx_step())
}

/// What a reader finds in a file.
pub open spec fn read_fbx(file: Seq<char>) -> FbxReading {
    scanned(file).0
}

/// Whether a line, however it goes on, starts like none of the lines that the
/// reader knows.
#[verifier::opaque]
spec fn is_plain(line: Seq<char>) -> bool {
    &&& reading::differs(line, "\tC: \"OO\","@)
    &&& reading::differs(line, "\t\t\ta: "@)
    &&& reading::differs(line, "\t\t\t\ta: "@)
    &&& reading::differs(line, "\tGeometry: "@)
    &&& reading::differs(line, "\tModel: "@)
    &&& reading::differs(line, "\tDeformer: "@)
    &&& reading::differs(line, "\tPose: "@)
    &&& reading::differs(line, "\t\t\tNode: "@)
    &&& reading::differs(line, "\t\t\tP: "@)
    &&& reading::differs(line, "\tCount: "@)
    &&& reading::differs(line, "\tObjectType: "@)
    &&& reading::differs(line, "\t\tNbPoseNodes: "@)
    &&& reading::differs(line, "\t;"@)
    &&& !line.contains('*')
}

proof fn plain_begins_not(line: Seq<char>, rest: Seq<char>)
    requires
        is_plain(line),
    ensures
        !reading::begins(line + rest, "\tC: \"OO\","@),
        !reading::begins(line + rest, "\t\t\ta: "@),
        !reading::begins(line + rest, "\t\t\t\ta: "@),
        !reading::begins(line + rest, "\tGeometry: "@),
        !reading::begins(line + rest, "\tModel: "@),
        !reading::begins(line + rest, "\tDeformer: "@),
        !reading::begins(line + rest, "\tPose: "@),
        !reading::begins(line + rest, "\t\t\tNode: "@),
        !reading::begins(line + rest, "\t\t\tP: "@),
        !reading::begins(line + rest, "\tCount: "@),
        !reading::begins(line + rest, "\tObjectType: "@),
        !reading::begins(line + rest, "\t\tNbPoseNodes: "@),
        !reading::begins(line + rest, "\t;"@),
{
    reveal(is_plain);
    reading::differing_begin_not(line, rest, "\tC: \"OO\","@);
    reading::differing_begin_not(line, rest, "\t\t\ta: "@);
    reading::differing_begin_not(line, rest, "\t\t\t\ta: "@);
    reading::differing_begin_not(line, rest, "\tGeometry: "@);
    reading::differing_begin_not(line, rest, "\tModel: "@);
    reading::differing_begin_not(line, rest, "\tDeformer: "@);
    reading::differing_begin_not(line, rest, "\tPose: "@);
    reading::differing_begin_not(line, rest, "\t\t\tNode: "@);
    reading::differing_begin_not(line, rest, "\t\t\tP: "@);
    reading::differing_begin_not(line, rest, "\tCount: "@);
    reading::differing_begin_not(line, rest, "\tObjectType: "@);
    reading::differing_begin_not(line, rest, "\t\tNbPoseNodes: "@);
    reading::differing_begin_not(line, rest, "\t;"@);
}

proof fn plain_is_skipped(known: FbxReading, line: Seq<char>)
    requires
        is_plain(line),
    ensures
        with_line(known, line) == known,
{
    reveal(is_plain);
    reveal(with_line);
    plain_begins_not(line, Seq::empty());
    assert(line + Seq::<char>::empty() =~= line);
    reading::split_whole(line, '*');
}

proof fn empty_is_skipped(known: FbxReading)
    ensures
        with_line(known, Seq::empty()) == known,
{
    reveal(with_line);
    reveal_strlit("\tC: \"OO\",");
    reveal_strlit("\t\t\ta: ");
    reveal_strlit("\t\t\t\ta: ");
    reveal_strlit("\tGeometry: ");
    reveal_strlit("\tModel: ");
    reveal_strlit("\tDeformer: ");
    reveal_strlit("\tPose: ");
    reveal_strlit("\t\t\tNode: ");
    reveal_strlit("\t\t\tP: ");
    reveal_strlit("\tCount: ");
    reveal_strlit("\tObjectType: ");
    reveal_strlit("\t\tNbPoseNodes: ");
    reveal_strlit("\t;");
    reading::split_whole(Seq::<char>::empty(), '*');
}

proof fn name_is_noted(known: FbxReading, name: Seq<char>, count: Seq<char>)
    requires
        is_plain(name),
        !count.contains('*'),
    ensures
        with_line(known, name + seq!['*'] + count) == (FbxReading { name, count, ..known }),
{
    reveal(is_plain);
    reveal(with_line);
    plain_begins_not(name, seq!['*'] + count);
    assert(name + seq!['*'] + count =~= name + (seq!['*'] + count));
    reading::split_first(name, count, '*');
    reading::split_whole(count, '*');
    assert(seq![name] + seq![count] =~= seq![name, count]);
}

proof fn link_line_is_read(known: FbxReading, rest: Seq<char>)
    ensures
        with_line(known, "\tC: \"OO\","@ + rest) == with_link(known, rest),
{
    let start = "\tC: \"OO\","@;
    reveal(with_line);
    reading::begins_with_part(start, rest);
    reveal_strlit("\tC: \"OO\",");
}

proof fn list_line_is_read(known: FbxReading, rest: Seq<char>)
    ensures
        with_line(known, "\t\t\ta: "@ + rest) == with_values(known, rest),
{
    let start = "\t\t\ta: "@;
    reveal(with_line);
    reading::begins_with_part(start, rest);
    reveal_strlit("\t\t\ta: ");
    assert(!reading::begins(start + rest, "\tC: \"OO\","@)) by {
        reveal_strlit("\tC: \"OO\",");
        assert(start[1] != "\tC: \"OO\","@[1]);
        reading::differing_begin_not(start, rest, "\tC: \"OO\","@);
    }
}

proof fn deep_list_line_is_read(known: FbxReading, rest: Seq<char>)
    ensures
        with_line(known, "\t\t\t\ta: "@ + rest) == with_values(known, rest),
{
    let start = "\t\t\t\ta: "@;
    reveal(with_line);
    reading::begins_with_part(start, rest);
    reveal_strlit("\t\t\t\ta: ");
    assert(!reading::begins(start + rest, "\tC: \"OO\","@)) by {
        reveal_strlit("\tC: \"OO\",");
        assert(start[1] != "\tC: \"OO\","@[1]);
        reading::differing_begin_not(start, rest, "\tC: \"OO\","@);
    }
    assert(!reading::begins(start + rest, "\t\t\ta: "@)) by {
        reveal_strlit("\t\t\ta: ");
        assert(start[3] != "\t\t\ta: "@[3]);
        reading::differing_begin_not(start, rest, "\t\t\ta: "@);
    }
}

proof fn geometry_line_is_read(known: FbxReading, rest: Seq<char>)
    ensures
        with_line(known, "\tGeometry: "@ + rest) == with_head(known, "\tGeometry: "@, rest),
{
    let start = "\tGeometry: "@;
    reveal(with_line);
    reading::begins_with_part(start, rest);
    reveal_strlit("\tGeometry: ");
    assert(!reading::begins(start + rest, "\tC: \"OO\","@)) by {
        reveal_strlit("\tC: \"OO\",");
        assert(start[1] != "\tC: \"OO\","@[1]);
        reading::differing_begin_not(start, rest, "\tC: \"OO\","@);
    }
    assert(!reading::begins(start + rest, "\t\t\ta: "@)) by {
        reveal_strlit("\t\t\ta: ");
        assert(start[1] != "\t\t\ta: "@[1]);
        reading::differing_begin_not(start, rest, "\t\t\ta: "@);
    }
    assert(!reading::begins(start + rest, "\t\t\t\ta: "@)) by {
        reveal_strlit("\t\t\t\ta: ");
        assert(start[1] != "\t\t\t\ta: "@[1]);
        reading::differing_begin_not(start, rest, "\t\t\t\ta: "@);
    }
}

proof fn model_line_is_read(known: FbxReading, rest: Seq<char>)
    ensures
        with_line(known, "\tModel: "@ + rest) == with_head(known, "\tModel: "@, rest),
{
    let start = "\tModel: "@;
    reveal(with_line);
    reading::begins_with_part(start, rest);
    reveal_strlit("\tModel: ");
    assert(!reading::begins(start + rest, "\tC: \"OO\","@)) by {
        reveal_strlit("\tC: \"OO\",");
        assert(start[1] != "\tC: \"OO\","@[1]);
        reading::differing_begin_not(start, rest, "\tC: \"OO\","@);
    }
    assert(!reading::begins(start + rest, "\t\t\ta: "@)) by {
        reveal_strlit("\t\t\ta: ");
        assert(start[1] != "\t\t\ta: "@[1]);
        reading::differing_begin_not(start, rest, "\t\t\ta: "@);
    }
    assert(!reading::begins(start + rest, "\t\t\t\ta: "@)) by {
        reveal_strlit("\t\t\t\ta: ");
        assert(start[1] != "\t\t\t\ta: "@[1]);
        reading::differing_begin_not(start, rest, "\t\t\t\ta: "@);
    }
    assert(!reading::begins(start + rest, "\tGeometry: "@)) by {
        reveal_strlit("\tGeometry: ");
        assert(start[1] != "\tGeometry: "@[1]);
        reading::differing_begin_not(start, rest, "\tGeometry: "@);
    }
}

proof fn deformer_line_is_read(known: FbxReading, rest: Seq<char>)
    ensures
        with_line(known, "\tDeformer: "@ + rest) == with_head(known, "\tDeformer: "@, rest),
{
    let start = "\tDeformer: "@;
    reveal(with_line);
    reading::begins_with_part(start, rest);
    reveal_strlit("\tDeformer: ");
    assert(!reading::begins(start + rest, "\tC: \"OO\","@)) by {
        reveal_strlit("\tC: \"OO\",");
        assert(start[1] != "\tC: \"OO\","@[1]);
        reading::differing_begin_not(start, rest, "\tC: \"OO\","@);
    }
    assert(!reading::begins(start + rest, "\t\t\ta: "@)) by {
        reveal_strlit("\t\t\ta: ");
        assert(start[1] != "\t\t\ta: "@[1]);
        reading::differing_begin_not(start, rest, "\t\t\ta: "@);
    }
    assert(!reading::begins(start + rest, "\t\t\t\ta: "@)) by {
        reveal_strlit("\t\t\t\ta: ");
        assert(start[1] != "\t\t\t\ta: "@[1]);
        reading::differing_begin_not(start, rest, "\t\t\t\ta: "@);
    }
    assert(!reading::begins(start + rest, "\tGeometry: "@)) by {
        reveal_strlit("\tGeometry: ");
        assert(start[1] != "\tGeometry: "@[1]);
        reading::differing_begin_not(start, rest, "\tGeometry: "@);
    }
    assert(!reading::begins(start + rest, "\tModel: "@)) by {
        reveal_strlit("\tModel: ");
        assert(start[1] != "\tModel: "@[1]);
        reading::differing_begin_not(start, rest, "\tModel: "@);
    }
}

proof fn pose_line_is_read(known: FbxReading, rest: Seq<char>)
    ensures
        with_line(known, "\tPose: "@ + rest) == with_head(known, "\tPose: "@, rest),
{
    let start = "\tPose: "@;
    reveal(with_line);
    reading::begins_with_part(start, rest);
    reveal_strlit("\tPose: ");
    assert(!reading::begins(start + rest, "\tC: \"OO\","@)) by {
        reveal_strlit("\tC: \"OO\",");
        assert(start[1] != "\tC: \"OO\","@[1]);
        reading::differing_begin_not(start, rest, "\tC: \"OO\","@);
    }
    assert(!reading::begins(start + rest, "\t\t\ta: "@)) by {
        reveal_strlit("\t\t\ta: ");
        assert(start[1] != "\t\t\ta: "@[1]);
        reading::differing_begin_not(start, rest, "\t\t\ta: "@);
    }
    assert(!reading::begins(start + rest, "\t\t\t\ta: "@)) by {
        reveal_strlit("\t\t\t\ta: ");
        assert(start[1] != "\t\t\t\ta: "@[1]);
        reading::differing_begin_not(start, rest, "\t\t\t\ta: "@);
    }
    assert(!reading::begins(start + rest, "\tGeometry: "@)) by {
        reveal_strlit("\tGeometry: ");
        assert(start[1] != "\tGeometry: "@[1]);
        reading::differing_begin_not(start, rest, "\tGeometry: "@);
    }
    assert(!reading::begins(start + rest, "\tModel: "@)) by {
        reveal_strlit("\tModel: ");
        assert(start[1] != "\tModel: "@[1]);
        reading::differing_begin_not(start, rest, "\tModel: "@);
    }
    assert(!reading::begins(start + rest, "\tDeformer: "@)) by {
        reveal_strlit("\tDeformer: ");
        assert(start[1] != "\tDeformer: "@[1]);
        reading::differing_begin_not(start, rest, "\tDeformer: "@);
    }
}

proof fn node_line_is_read(known: FbxReading, rest: Seq<char>)
    ensures
        with_line(known, "\t\t\tNode: "@ + rest) == (FbxReading { owner: rest, ..known }),
{
    let start = "\t\t\tNode: "@;
    reveal(with_line);
    reading::begins_with_part(start, rest);
    reveal_strlit("\t\t\tNode: ");
    assert(!reading::begins(start + rest, "\tC: \"OO\","@)) by {
        reveal_strlit("\tC: \"OO\",");
        assert(start[1] != "\tC: \"OO\","@[1]);
        reading::differing_begin_not(start, rest, "\tC: \"OO\","@);
    }
    assert(!reading::begins(start + rest, "\t\t\ta: "@)) by {
        reveal_strlit("\t\t\ta: ");
        assert(start[3] != "\t\t\ta: "@[3]);
        reading::differing_begin_not(start, rest, "\t\t\ta: "@);
    }
    assert(!reading::begins(start + rest, "\t\t\t\ta: "@)) by {
        reveal_strlit("\t\t\t\ta: ");
        assert(start[3] != "\t\t\t\ta: "@[3]);
        reading::differing_begin_not(start, rest, "\t\t\t\ta: "@);
    }
    assert(!reading::begins(start + rest, "\tGeometry: "@)) by {
        reveal_strlit("\tGeometry: ");
        assert(start[1] != "\tGeometry: "@[1]);
        reading::differing_begin_not(start, rest, "\tGeometry: "@);
    }
    assert(!reading::begins(start + rest, "\tModel: "@)) by {
        reveal_strlit("\tModel: ");
        assert(start[1] != "\tModel: "@[1]);
        reading::differing_begin_not(start, rest, "\tModel: "@);
    }
    assert(!reading::begins(start + rest, "\tDeformer: "@)) by {
        reveal_strlit("\tDeformer: ");
        assert(start[1] != "\tDeformer: "@[1]);
        reading::differing_begin_not(start, rest, "\tDeformer: "@);
    }
    assert(!reading::begins(start + rest, "\tPose: "@)) by {
        reveal_strlit("\tPose: ");
        assert(start[1] != "\tPose: "@[1]);
        reading::differing_begin_not(start, rest, "\tPose: "@);
    }
}

proof fn property_line_is_read(known: FbxReading, rest: Seq<char>)
    ensures
        with_line(known, "\t\t\tP: "@ + rest) == with_property(known, rest),
{
    let start = "\t\t\tP: "@;
    reveal(with_line);
    reading::begins_with_part(start, rest);
    reveal_strlit("\t\t\tP: ");
    assert(!reading::begins(start + rest, "\tC: \"OO\","@)) by {
        reveal_strlit("\tC: \"OO\",");
        assert(start[1] != "\tC: \"OO\","@[1]);
        reading::differing_begin_not(start, rest, "\tC: \"OO\","@);
    }
    assert(!reading::begins(start + rest, "\t\t\ta: "@)) by {
        reveal_strlit("\t\t\ta: ");
        assert(start[3] != "\t\t\ta: "@[3]);
        reading::differing_begin_not(start, rest, "\t\t\ta: "@);
    }
    assert(!reading::begins(start + rest, "\t\t\t\ta: "@)) by {
        reveal_strlit("\t\t\t\ta: ");
        assert(start[3] != "\t\t\t\ta: "@[3]);
        reading::differing_begin_not(start, rest, "\t\t\t\ta: "@);
    }
    assert(!reading::begins(start + rest, "\tGeometry: "@)) by {
        reveal_strlit("\tGeometry: ");
        assert(start[1] != "\tGeometry: "@[1]);
        reading::differing_begin_not(start, rest, "\tGeometry: "@);
    }
    assert(!reading::begins(start + rest, "\tModel: "@)) by {
        reveal_strlit("\tModel: ");
        assert(start[1] != "\tModel: "@[1]);
        reading::differing_begin_not(start, rest, "\tModel: "@);
    }
    assert(!reading::begins(start + rest, "\tDeformer: "@)) by {
        reveal_strlit("\tDeformer: ");
        assert(start[1] != "\tDeformer: "@[1]);
        reading::differing_begin_not(start, rest, "\tDeformer: "@);
    }
    assert(!reading::begins(start + rest, "\tPose: "@)) by {
        reveal_strlit("\tPose: ");
        assert(start[1] != "\tPose: "@[1]);
        reading::differing_begin_not(start, rest, "\tPose: "@);
    }
    assert(!reading::begins(start + rest, "\t\t\tNode: "@)) by {
        reveal_strlit("\t\t\tNode: ");
        assert(start[3] != "\t\t\tNode: "@[3]);
        reading::differing_begin_not(start, rest, "\t\t\tNode: "@);
    }
}

proof fn total_line_is_read(known: FbxReading, rest: Seq<char>)
    ensures
        with_line(known, "\tCount: "@ + rest) == with_count(known, rest),
{
    let start = "\tCount: "@;
    reveal(with_line);
    reading::begins_with_part(start, rest);
    reveal_strlit("\tCount: ");
    assert(!reading::begins(start + rest, "\tC: \"OO\","@)) by {
        reveal_strlit("\tC: \"OO\",");
        assert(start[2] != "\tC: \"OO\","@[2]);
        reading::differing_begin_not(start, rest, "\tC: \"OO\","@);
    }
    assert(!reading::begins(start + rest, "\t\t\ta: "@)) by {
        reveal_strlit("\t\t\ta: ");
        assert(start[1] != "\t\t\ta: "@[1]);
        reading::differing_begin_not(start, rest, "\t\t\ta: "@);
    }
    assert(!reading::begins(start + rest, "\t\t\t\ta: "@)) by {
        reveal_strlit("\t\t\t\ta: ");
        assert(start[1] != "\t\t\t\ta: "@[1]);
        reading::differing_begin_not(start, rest, "\t\t\t\ta: "@);
    }
    assert(!reading::begins(start + rest, "\tGeometry: "@)) by {
        reveal_strlit("\tGeometry: ");
        assert(start[1] != "\tGeometry: "@[1]);
        reading::differing_begin_not(start, rest, "\tGeometry: "@);
    }
    assert(!reading::begins(start + rest, "\tModel: "@)) by {
        reveal_strlit("\tModel: ");
        assert(start[1] != "\tModel: "@[1]);
        reading::differing_begin_not(start, rest, "\tModel: "@);
    }
    assert(!reading::begins(start + rest, "\tDeformer: "@)) by {
        reveal_strlit("\tDeformer: ");
        assert(start[1] != "\tDeformer: "@[1]);
        reading::differing_begin_not(start, rest, "\tDeformer: "@);
    }
    assert(!reading::begins(start + rest, "\tPose: "@)) by {
        reveal_strlit("\tPose: ");
        assert(start[1] != "\tPose: "@[1]);
        reading::differing_begin_not(start, rest, "\tPose: "@);
    }
    assert(!reading::begins(start + rest, "\t\t\tNode: "@)) by {
        reveal_strlit("\t\t\tNode: ");
        assert(start[1] != "\t\t\tNode: "@[1]);
        reading::differing_begin_not(start, rest, "\t\t\tNode: "@);
    }
    assert(!reading::begins(start + rest, "\t\t\tP: "@)) by {
        reveal_strlit("\t\t\tP: ");
        assert(start[1] != "\t\t\tP: "@[1]);
        reading::differing_begin_not(start, rest, "\t\t\tP: "@);
    }
}

proof fn kind_count_line_is_read(known: FbxReading, rest: Seq<char>)
    ensures
        with_line(known, "\tObjectType: "@ + rest) == with_count(known, rest),
{
    let start = "\tObjectType: "@;
    reveal(with_line);
    reading::begins_with_part(start, rest);
    reveal_strlit("\tObjectType: ");
    assert(!reading::begins(start + rest, "\tC: \"OO\","@)) by {
        reveal_strlit("\tC: \"OO\",");
        assert(start[1] != "\tC: \"OO\","@[1]);
        reading::differing_begin_not(start, rest, "\tC: \"OO\","@);
    }
    assert(!reading::begins(start + rest, "\t\t\ta: "@)) by {
        reveal_strlit("\t\t\ta: ");
        assert(start[1] != "\t\t\ta: "@[1]);
        reading::differing_begin_not(start, rest, "\t\t\ta: "@);
    }
    assert(!reading::begins(start + rest, "\t\t\t\ta: "@)) by {
        reveal_strlit("\t\t\t\ta: ");
        assert(start[1] != "\t\t\t\ta: "@[1]);
        reading::differing_begin_not(start, rest, "\t\t\t\ta: "@);
    }
    assert(!reading::begins(start + rest, "\tGeometry: "@)) by {
        reveal_strlit("\tGeometry: ");
        assert(start[1] != "\tGeometry: "@[1]);
        reading::differing_begin_not(start, rest, "\tGeometry: "@);
    }
    assert(!reading::begins(start + rest, "\tModel: "@)) by {
        reveal_strlit("\tModel: ");
        assert(start[1] != "\tModel: "@[1]);
        reading::differing_begin_not(start, rest, "\tModel: "@);
    }
    assert(!reading::begins(start + rest, "\tDeformer: "@)) by {
        reveal_strlit("\tDeformer: ");
        assert(start[1] != "\tDeformer: "@[1]);
        reading::differing_begin_not(start, rest, "\tDeformer: "@);
    }
    assert(!reading::begins(start + rest, "\tPose: "@)) by {
        reveal_strlit("\tPose: ");
        assert(start[1] != "\tPose: "@[1]);
        reading::differing_begin_not(start, rest, "\tPose: "@);
    }
    assert(!reading::begins(start + rest, "\t\t\tNode: "@)) by {
        reveal_strlit("\t\t\tNode: ");
        assert(start[1] != "\t\t\tNode: "@[1]);
        reading::differing_begin_not(start, rest, "\t\t\tNode: "@);
    }
    assert(!reading::begins(start + rest, "\t\t\tP: "@)) by {
        reveal_strlit("\t\t\tP: ");
        assert(start[1] != "\t\t\tP: "@[1]);
        reading::differing_begin_not(start, rest, "\t\t\tP: "@);
    }
    assert(!reading::begins(start + rest, "\tCount: "@)) by {
        reveal_strlit("\tCount: ");
        assert(start[1] != "\tCount: "@[1]);
        reading::differing_begin_not(start, rest, "\tCount: "@);
    }
}

proof fn pose_count_line_is_read(known: FbxReading, rest: Seq<char>)
    ensures
        with_line(known, "\t\tNbPoseNodes: "@ + rest) == with_count(known, rest),
{
    let start = "\t\tNbPoseNodes: "@;
    reveal(with_line);
    reading::begins_with_part(start, rest);
    reveal_strlit("\t\tNbPoseNodes: ");
    assert(!reading::begins(start + rest, "\tC: \"OO\","@)) by {
        reveal_strlit("\tC: \"OO\",");
        assert(start[1] != "\tC: \"OO\","@[1]);
        reading::differing_begin_not(start, rest, "\tC: \"OO\","@);
    }
    assert(!reading::begins(start + rest, "\t\t\ta: "@)) by {
        reveal_strlit("\t\t\ta: ");
        assert(start[2] != "\t\t\ta: "@[2]);
        reading::differing_begin_not(start, rest, "\t\t\ta: "@);
    }
    assert(!reading::begins(start + rest, "\t\t\t\ta: "@)) by {
        reveal_strlit("\t\t\t\ta: ");
        assert(start[2] != "\t\t\t\ta: "@[2]);
        reading::differing_begin_not(start, rest, "\t\t\t\ta: "@);
    }
    assert(!reading::begins(start + rest, "\tGeometry: "@)) by {
        reveal_strlit("\tGeometry: ");
        assert(start[1] != "\tGeometry: "@[1]);
        reading::differing_begin_not(start, rest, "\tGeometry: "@);
    }
    assert(!reading::begins(start + rest, "\tModel: "@)) by {
        reveal_strlit("\tModel: ");
        assert(start[1] != "\tModel: "@[1]);
        reading::differing_begin_not(start, rest, "\tModel: "@);
    }
    assert(!reading::begins(start + rest, "\tDeformer: "@)) by {
        reveal_strlit("\tDeformer: ");
        assert(start[1] != "\tDeformer: "@[1]);
        reading::differing_begin_not(start, rest, "\tDeformer: "@);
    }
    assert(!reading::begins(start + rest, "\tPose: "@)) by {
        reveal_strlit("\tPose: ");
        assert(start[1] != "\tPose: "@[1]);
        reading::differing_begin_not(start, rest, "\tPose: "@);
    }
    assert(!reading::begins(start + rest, "\t\t\tNode: "@)) by {
        reveal_strlit("\t\t\tNode: ");
        assert(start[2] != "\t\t\tNode: "@[2]);
        reading::differing_begin_not(start, rest, "\t\t\tNode: "@);
    }
    assert(!reading::begins(start + rest, "\t\t\tP: "@)) by {
        reveal_strlit("\t\t\tP: ");
        assert(start[2] != "\t\t\tP: "@[2]);
        reading::differing_begin_not(start, rest, "\t\t\tP: "@);
    }
    assert(!reading::begins(start + rest, "\tCount: "@)) by {
        reveal_strlit("\tCount: ");
        assert(start[1] != "\tCount: "@[1]);
        reading::differing_begin_not(start, rest, "\tCount: "@);
    }
    assert(!reading::begins(start + rest, "\tObjectType: "@)) by {
        reveal_strlit("\tObjectType: ");
        assert(start[1] != "\tObjectType: "@[1]);
        reading::differing_begin_not(start, rest, "\tObjectType: "@);
    }
}

proof fn note_line_is_read(known: FbxReading, rest: Seq<char>)
    ensures
        with_line(known, "\t;"@ + rest) == known,
{
    let start = "\t;"@;
    reveal(with_line);
    reading::begins_with_part(start, rest);
    reveal_strlit("\t;");
    assert(!reading::begins(start + rest, "\tC: \"OO\","@)) by {
        reveal_strlit("\tC: \"OO\",");
        assert(start[1] != "\tC: \"OO\","@[1]);
        reading::differing_begin_not(start, rest, "\tC: \"OO\","@);
    }
    assert(!reading::begins(start + rest, "\t\t\ta: "@)) by {
        reveal_strlit("\t\t\ta: ");
        assert(start[1] != "\t\t\ta: "@[1]);
        reading::differing_begin_not(start, rest, "\t\t\ta: "@);
    }
    assert(!reading::begins(start + rest, "\t\t\t\ta: "@)) by {
        reveal_strlit("\t\t\t\ta: ");
        assert(start[1] != "\t\t\t\ta: "@[1]);
        reading::differing_begin_not(start, rest, "\t\t\t\ta: "@);
    }
    assert(!reading::begins(start + rest, "\tGeometry: "@)) by {
        reveal_strlit("\tGeometry: ");
        assert(start[1] != "\tGeometry: "@[1]);
        reading::differing_begin_not(start, rest, "\tGeometry: "@);
    }
    assert(!reading::begins(start + rest, "\tModel: "@)) by {
        reveal_strlit("\tModel: ");
        assert(start[1] != "\tModel: "@[1]);
        reading::differing_begin_not(start, rest, "\tModel: "@);
    }
    assert(!reading::begins(start + rest, "\tDeformer: "@)) by {
        reveal_strlit("\tDeformer: ");
        assert(start[1] != "\tDeformer: "@[1]);
        reading::differing_begin_not(start, rest, "\tDeformer: "@);
    }
    assert(!reading::begins(start + rest, "\tPose: "@)) by {
        reveal_strlit("\tPose: ");
        assert(start[1] != "\tPose: "@[1]);
        reading::differing_begin_not(start, rest, "\tPose: "@);
    }
    assert(!reading::begins(start + rest, "\t\t\tNode: "@)) by {
        reveal_strlit("\t\t\tNode: ");
        assert(start[1] != "\t\t\tNode: "@[1]);
        reading::differing_begin_not(start, rest, "\t\t\tNode: "@);
    }
    assert(!reading::begins(start + rest, "\t\t\tP: "@)) by {
        reveal_strlit("\t\t\tP: ");
        assert(start[1] != "\t\t\tP: "@[1]);
        reading::differing_begin_not(start, rest, "\t\t\tP: "@);
    }
    assert(!reading::begins(start + rest, "\tCount: "@)) by {
        reveal_strlit("\tCount: ");
        assert(start[1] != "\tCount: "@[1]);
        reading::differing_begin_not(start, rest, "\tCount: "@);
    }
    assert(!reading::begins(start + rest, "\tObjectType: "@)) by {
        reveal_strlit("\tObjectType: ");
        assert(start[1] != "\tObjectType: "@[1]);
        reading::differing_begin_not(start, rest, "\tObjectType: "@);
    }
    assert(!reading::begins(start + rest, "\t\tNbPoseNodes: "@)) by {
        reveal_strlit("\t\tNbPoseNodes: ");
        assert(start[1] != "\t\tNbPoseNodes: "@[1]);
        reading::differing_begin_not(start, rest, "\t\tNbPoseNodes: "@);
    }
}
/// Whether a line that starts with so many tabs and then `c` starts like none of
/// the lines that the reader knows.
spec fn is_other(tabs: int, c: char) -> bool {
    &&& c != '\t'
    &&& 0 <= tabs <= 3
    &&& tabs == 1 ==> c != 'C' && c != 'G' && c != 'M' && c != 'D' && c != 'P' && c != 'O' && c
        != ';'
    &&& tabs == 2 ==> c != 'N'
    &&& tabs == 3 ==> c != 'a' && c != 'N' && c != 'P'
}

proof fn other_is_plain(line: Seq<char>, tabs: int, c: char)
    requires
        is_other(tabs, c),
        line.len() > tabs,
        forall|i: int| 0 <= i < tabs ==> line[i] == '\t',
        line[tabs] == c,
        !line.contains('*'),
    ensures
        is_plain(line),
{
    reveal(is_plain);
    reveal_strlit("\tC: \"OO\",");
    assert(reading::differs(line, "\tC: \"OO\","@)) by {
        if tabs <= 1 {
            assert(line[tabs] != "\tC: \"OO\","@[tabs]);
        } else {
            assert(line[1] != "\tC: \"OO\","@[1]);
        }
    }
    reveal_strlit("\t\t\ta: ");
    assert(reading::differs(line, "\t\t\ta: "@)) by {
        if tabs <= 3 {
            assert(line[tabs] != "\t\t\ta: "@[tabs]);
        } else {
            assert(line[3] != "\t\t\ta: "@[3]);
        }
    }
    reveal_strlit("\t\t\t\ta: ");
    assert(reading::differs(line, "\t\t\t\ta: "@)) by {
        if tabs <= 4 {
            assert(line[tabs] != "\t\t\t\ta: "@[tabs]);
        } else {
            assert(line[4] != "\t\t\t\ta: "@[4]);
        }
    }
    reveal_strlit("\tGeometry: ");
    assert(reading::differs(line, "\tGeometry: "@)) by {
        if tabs <= 1 {
            assert(line[tabs] != "\tGeometry: "@[tabs]);
        } else {
            assert(line[1] != "\tGeometry: "@[1]);
        }
    }
    reveal_strlit("\tModel: ");
    assert(reading::differs(line, "\tModel: "@)) by {
        if tabs <= 1 {
            assert(line[tabs] != "\tModel: "@[tabs]);
        } else {
            assert(line[1] != "\tModel: "@[1]);
        }
    }
    reveal_strlit("\tDeformer: ");
    assert(reading::differs(line, "\tDeformer: "@)) by {
        if tabs <= 1 {
            assert(line[tabs] != "\tDeformer: "@[tabs]);
        } else {
            assert(line[1] != "\tDeformer: "@[1]);
        }
    }
    reveal_strlit("\tPose: ");
    assert(reading::differs(line, "\tPose: "@)) by {
        if tabs <= 1 {
            assert(line[tabs] != "\tPose: "@[tabs]);
        } else {
            assert(line[1] != "\tPose: "@[1]);
        }
    }
    reveal_strlit("\t\t\tNode: ");
    assert(reading::differs(line, "\t\t\tNode: "@)) by {
        if tabs <= 3 {
            assert(line[tabs] != "\t\t\tNode: "@[tabs]);
        } else {
            assert(line[3] != "\t\t\tNode: "@[3]);
        }
    }
    reveal_strlit("\t\t\tP: ");
    assert(reading::differs(line, "\t\t\tP: "@)) by {
        if tabs <= 3 {
            assert(line[tabs] != "\t\t\tP: "@[tabs]);
        } else {
            assert(line[3] != "\t\t\tP: "@[3]);
        }
    }
    reveal_strlit("\tCount: ");
    assert(reading::differs(line, "\tCount: "@)) by {
        if tabs <= 1 {
            assert(line[tabs] != "\tCount: "@[tabs]);
        } else {
            assert(line[1] != "\tCount: "@[1]);
        }
    }
    reveal_strlit("\tObjectType: ");
    assert(reading::differs(line, "\tObjectType: "@)) by {
        if tabs <= 1 {
            assert(line[tabs] != "\tObjectType: "@[tabs]);
        } else {
            assert(line[1] != "\tObjectType: "@[1]);
        }
    }
    reveal_strlit("\t\tNbPoseNodes: ");
    assert(reading::differs(line, "\t\tNbPoseNodes: "@)) by {
        if tabs <= 2 {
            assert(line[tabs] != "\t\tNbPoseNodes: "@[tabs]);
        } else {
            assert(line[2] != "\t\tNbPoseNodes: "@[2]);
        }
    }
    reveal_strlit("\t;");
    assert(reading::differs(line, "\t;"@)) by {
        if tabs <= 1 {
            assert(line[tabs] != "\t;"@[tabs]);
        } else {
            assert(line[1] != "\t;"@[1]);
        }
    }
}

proof fn head_is_noted(known: FbxReading, kind: Seq<char>, id: Seq<char>, rest: Seq<char>)
    requires
        !id.contains(','),
    ensures
        with_head(known, kind, id + seq![','] + rest) == (FbxReading {
            heads: known.heads.push(Head { kind, id, rest }),
            owner: id,
            ..known
        }),
{
    reading::split_first(id, rest, ',');
    assert((id + seq![','] + rest).skip((id.len() + 1) as int) =~= rest);
}

proof fn fields_are_split(
    a: Seq<char>,
    b: Seq<char>,
    c: Seq<char>,
    d: Seq<char>,
    rest: Seq<char>,
    separator: char,
)
    requires
        !a.contains(separator),
        !b.contains(separator),
        !c.contains(separator),
        !d.contains(separator),
    ensures
        ({
            let s = seq![separator];
            reading::split(a + s + b + s + c + s + d + s + rest, separator) == seq![a, b, c, d] + reading::split(
                rest,
                separator,
            )
        }),
{
    let s = seq![separator];
    reading::split_first(d, rest, separator);
    reading::split_first(c, d + s + rest, separator);
    reading::split_first(b, c + s + (d + s + rest), separator);
    reading::split_first(a, b + s + (c + s + (d + s + rest)), separator);
    assert(a + s + b + s + c + s + d + s + rest =~= a + s + (b + s + (c + s + (d + s + rest))));
    assert(seq![a] + (seq![b] + (seq![c] + (seq![d] + reading::split(rest, separator)))) =~= seq![
        a,
        b,
        c,
        d,
    ] + reading::split(rest, separator));
}

proof fn two_are_split(a: Seq<char>, b: Seq<char>, separator: char)
    requires
        !a.contains(separator),
        !b.contains(separator),
    ensures
        reading::split(a + seq![separator] + b, separator) == seq![a, b],
{
    reading::split_first(a, b, separator);
    reading::split_whole(b, separator);
    assert(seq![a] + seq![b] =~= seq![a, b]);
}

// ── what is in the file ───────────────────────────────────────────────────────

/// A declared length as it stands behind the name of a list.
pub open spec fn declared(n: nat) -> Seq<char> {
    text::decimal(n) + " {"@
}

/// The numbers of a list as they stand in the file.
pub open spec fn decimals(numbers: Seq<Decimal>) -> Seq<Seq<char>> {
    reading::listed(
        numbers.len(),
        |i: int| fbx::plain_decimal(numbers[i].is_zero, numbers[i].fixed@),
    )
}

/// Whether a number can stand between commas in a line.
pub open spec fn is_number(number: Decimal) -> bool {
    !number.fixed@.contains(',') && !number.fixed@.contains('\n')
}

/// Whether all numbers of a list can.
pub open spec fn are_numbers(numbers: Seq<Decimal>) -> bool {
    forall|i: int| 0 <= i < numbers.len() ==> is_number(#[trigger] numbers[i])
}

proof fn shortened_lacks(s: Seq<char>, c: char)
    requires
        !s.contains(c),
    ensures
        !fbx::without_zeros(s).contains(c),
    decreases s.len(),
{
    if s.len() > 0 && s.last() == '0' {
        assert forall|i: int| 0 <= i < s.len() - 1 implies s.drop_last()[i] != c by {
            assert(s.contains(s[i]));
        }
        shortened_lacks(s.drop_last(), c);
    }
}

proof fn number_lacks(number: Decimal, c: char)
    requires
        !number.fixed@.contains(c),
        c != '0',
    ensures
        !fbx::plain_decimal(number.is_zero, number.fixed@).contains(c),
{
    reveal_strlit("0");
    shortened_lacks(number.fixed@, c);
    let short = fbx::without_zeros(number.fixed@);
    assert forall|i: int| 0 <= i < short.push('0').len() implies short.push('0')[i] != c by {
        if i < short.len() {
            assert(short.contains(short[i]));
        }
    }
}

proof fn decimals_are_read(numbers: Seq<Decimal>)
    requires
        are_numbers(numbers),
    ensures
        !fbx::decimals_text(numbers).contains('\n'),
        reading::split(fbx::decimals_text(numbers), ',') == decimals(numbers),
{
    let f = |i: int| fbx::plain_decimal(numbers[i].is_zero, numbers[i].fixed@);
    assert forall|i: int| 0 <= i < numbers.len() implies !(#[trigger] f(i)).contains(',')
        && !f(i).contains('\n') by {
        assert(is_number(numbers[i]));
        number_lacks(numbers[i], ',');
        number_lacks(numbers[i], '\n');
    }
    reading::list_reads_back(numbers.len(), f);
    reading::joined_lacks(numbers.len(), f, '\n');
}

/// The polygon list as it stands in the file.
pub open spec fn polygons(indices: Seq<u32>) -> Seq<Seq<char>> {
    reading::listed(
        (3 * (indices.len() / 3)) as nat,
        |j: int| text::signed_decimal(fbx::polygon_entry(indices, j)),
    )
}

proof fn polygons_are_read(indices: Seq<u32>)
    ensures
        !fbx::polygon_text(indices).contains('\n'),
        reading::split(fbx::polygon_text(indices), ',') == polygons(indices),
{
    let f = |j: int| text::signed_decimal(fbx::polygon_entry(indices, j));
    let n = (3 * (indices.len() / 3)) as nat;
    assert forall|j: int| 0 <= j < n implies !(#[trigger] f(j)).contains(',') && !f(j).contains(
        '\n',
    ) by {
        reading::signed_decimal_lacks(fbx::polygon_entry(indices, j), ',');
        reading::signed_decimal_lacks(fbx::polygon_entry(indices, j), '\n');
    }
    reading::list_reads_back(n, f);
    reading::joined_lacks(n, f, '\n');
}

/// The vertices of a cluster as they stand in the file.
pub open spec fn cluster_vertices(entries: Seq<(int, int)>) -> Seq<Seq<char>> {
    reading::listed(
        entries.len(),
        |i: int| text::signed_decimal(fbx::wrap_i32(entries[i].0)),
    )
}

/// The weights of a cluster as they stand in the file.
pub open spec fn cluster_weights(entries: Seq<(int, int)>, weights: Seq<[Decimal; 4]>) -> Seq<
    Seq<char>,
> {
    reading::listed(
        entries.len(),
        |i: int|
            fbx::plain_decimal(
                weights[entries[i].0]@[entries[i].1].is_zero,
                weights[entries[i].0]@[entries[i].1].fixed@,
            ),
    )
}

/// Whether the weights of all slots can stand in a list.
pub open spec fn weights_are_numbers(weights: Seq<[Decimal; 4]>) -> bool {
    forall|v: int, k: int|
        0 <= v < weights.len() && 0 <= k < 4 ==> is_number(#[trigger] weights[v]@[k])
}

/// Whether all entries of a cluster name slots that have weights.
pub open spec fn entries_in_range(entries: Seq<(int, int)>, sets: nat) -> bool {
    forall|i: int|
        0 <= i < entries.len() ==> 0 <= (#[trigger] entries[i]).0 < sets && 0 <= entries[i].1 < 4
}

proof fn clusters_are_read(entries: Seq<(int, int)>, weights: Seq<[Decimal; 4]>)
    requires
        weights_are_numbers(weights),
        entries_in_range(entries, weights.len()),
    ensures
        !fbx::cluster_indices_text(entries).contains('\n'),
        reading::split(fbx::cluster_indices_text(entries), ',') == cluster_vertices(entries),
        !fbx::cluster_weights_text(entries, weights).contains('\n'),
        reading::split(fbx::cluster_weights_text(entries, weights), ',') == cluster_weights(
            entries,
            weights,
        ),
{
    let f = |i: int| text::signed_decimal(fbx::wrap_i32(entries[i].0));
    let g = |i: int|
        fbx::plain_decimal(
            weights[entries[i].0]@[entries[i].1].is_zero,
            weights[entries[i].0]@[entries[i].1].fixed@,
        );
    assert forall|i: int| 0 <= i < entries.len() implies !(#[trigger] f(i)).contains(',')
        && !f(i).contains('\n') by {
        reading::signed_decimal_lacks(fbx::wrap_i32(entries[i].0), ',');
        reading::signed_decimal_lacks(fbx::wrap_i32(entries[i].0), '\n');
    }
    assert forall|i: int| 0 <= i < entries.len() implies !(#[trigger] g(i)).contains(',')
        && !g(i).contains('\n') by {
        assert(0 <= entries[i].0 < weights.len());
        let number = weights[entries[i].0]@[entries[i].1];
        assert(is_number(number));
        number_lacks(number, ',');
        number_lacks(number, '\n');
    }
    reading::list_reads_back(entries.len(), f);
    reading::joined_lacks(entries.len(), f, '\n');
    reading::list_reads_back(entries.len(), g);
    reading::joined_lacks(entries.len(), g, '\n');
}


/// The words that declare how many objects of a kind there are.
pub open spec fn counted(kind: Seq<char>, number: Seq<char>) -> Seq<Seq<char>> {
    seq![kind, "{"@, "Count:"@, number, "}"@]
}


#[verifier::rlimit(100)]
proof fn header_is_read(out: Seq<char>)
    requires
        scanned(out).1.len() == 0,
    ensures
        scanned(fbx::header_text(out)) == (scanned(out).0, Seq::<char>::empty()),
{
    let step = fbx_step();
    let nothing = Seq::<char>::empty();
    assert(scanned(out) == (scanned(out).0, nothing)) by {
        assert(scanned(out).1 =~= nothing);
    }
    let t0 = out;
    let s0 = scanned(out).0;
    let t1 = t0 + "; FBX 7.4.0 project file\n; Exported by Cube Bauhaus rig bay\n; -------------------------------------------\n\nFBXHeaderExtension:  {\n\tFBXHeaderVersion: 1003\n\tFBXVersion: 7400\n\tCreator: \"Cube Bauhaus rig bay\"\n}\n\nGlobalSettings:  {\n\tVersion: 1000\n\tProperties70:  {\n\t\tP: \"UpAxis\", \"int\", \"Integer\", \"\",1\n\t\tP: \"UpAxisSign\", \"int\", \"Integer\", \"\",1\n\t\tP: \"FrontAxis\", \"int\", \"Integer\", \"\",2\n\t\tP: \"FrontAxisSign\", \"int\", \"Integer\", \"\",1\n\t\tP: \"CoordAxis\", \"int\", \"Integer\", \"\",0\n\t\tP: \"CoordAxisSign\", \"int\", \"Integer\", \"\",1\n\t\tP: \"UnitScaleFactor\", \"double\", \"Number\", \"\",1.0\n\t}\n}\n\n"@;
    let s1 = with_line(s0, "; FBX 7.4.0 project file"@);
    assert(s1 == s0) by {
        assert(is_plain("; FBX 7.4.0 project file"@)) by {
            reveal_strlit("; FBX 7.4.0 project file");
            other_is_plain("; FBX 7.4.0 project file"@, 0, ';');
        }
        plain_is_skipped(s0, "; FBX 7.4.0 project file"@);
    }
    let s2 = with_line(s1, "; Exported by Cube Bauhaus rig bay"@);
    assert(s2 == s1) by {
        assert(is_plain("; Exported by Cube Bauhaus rig bay"@)) by {
            reveal_strlit("; Exported by Cube Bauhaus rig bay");
            other_is_plain("; Exported by Cube Bauhaus rig bay"@, 0, ';');
        }
        plain_is_skipped(s1, "; Exported by Cube Bauhaus rig bay"@);
    }
    let s3 = with_line(s2, "; -------------------------------------------"@);
    assert(s3 == s2) by {
        assert(is_plain("; -------------------------------------------"@)) by {
            reveal_strlit("; -------------------------------------------");
            other_is_plain("; -------------------------------------------"@, 0, ';');
        }
        plain_is_skipped(s2, "; -------------------------------------------"@);
    }
    let s4 = with_line(s3, nothing);
    empty_is_skipped(s3);
    let s5 = with_line(s4, "FBXHeaderExtension:  {"@);
    assert(s5 == s4) by {
        assert(is_plain("FBXHeaderExtension:  {"@)) by {
            reveal_strlit("FBXHeaderExtension:  {");
            other_is_plain("FBXHeaderExtension:  {"@, 0, 'F');
        }
        plain_is_skipped(s4, "FBXHeaderExtension:  {"@);
    }
    let s6 = with_line(s5, "\tFBXHeaderVersion: 1003"@);
    assert(s6 == s5) by {
        assert(is_plain("\tFBXHeaderVersion: 1003"@)) by {
            reveal_strlit("\tFBXHeaderVersion: 1003");
            other_is_plain("\tFBXHeaderVersion: 1003"@, 1, 'F');
        }
        plain_is_skipped(s5, "\tFBXHeaderVersion: 1003"@);
    }
    let s7 = with_line(s6, "\tFBXVersion: 7400"@);
    assert(s7 == s6) by {
        assert(is_plain("\tFBXVersion: 7400"@)) by {
            reveal_strlit("\tFBXVersion: 7400");
            other_is_plain("\tFBXVersion: 7400"@, 1, 'F');
        }
        plain_is_skipped(s6, "\tFBXVersion: 7400"@);
    }
    let s8 = with_line(s7, "\tCreator: \"Cube Bauhaus rig bay\""@);
    assert(s8 == s7) by {
        assert(is_plain("\tCreator: \"Cube Bauhaus rig bay\""@)) by {
            reveal(is_plain);
            reveal_strlit("\tCreator: \"Cube Bauhaus rig bay\"");
            reveal_strlit("\tC: \"OO\",");
            assert("\tCreator: \"Cube Bauhaus rig bay\""@[2] != "\tC: \"OO\","@[2]);
            reveal_strlit("\t\t\ta: ");
            assert("\tCreator: \"Cube Bauhaus rig bay\""@[1] != "\t\t\ta: "@[1]);
            reveal_strlit("\t\t\t\ta: ");
            assert("\tCreator: \"Cube Bauhaus rig bay\""@[1] != "\t\t\t\ta: "@[1]);
            reveal_strlit("\tGeometry: ");
            assert("\tCreator: \"Cube Bauhaus rig bay\""@[1] != "\tGeometry: "@[1]);
            reveal_strlit("\tModel: ");
            assert("\tCreator: \"Cube Bauhaus rig bay\""@[1] != "\tModel: "@[1]);
            reveal_strlit("\tDeformer: ");
            assert("\tCreator: \"Cube Bauhaus rig bay\""@[1] != "\tDeformer: "@[1]);
            reveal_strlit("\tPose: ");
            assert("\tCreator: \"Cube Bauhaus rig bay\""@[1] != "\tPose: "@[1]);
            reveal_strlit("\t\t\tNode: ");
            assert("\tCreator: \"Cube Bauhaus rig bay\""@[1] != "\t\t\tNode: "@[1]);
            reveal_strlit("\t\t\tP: ");
            assert("\tCreator: \"Cube Bauhaus rig bay\""@[1] != "\t\t\tP: "@[1]);
            reveal_strlit("\tCount: ");
            assert("\tCreator: \"Cube Bauhaus rig bay\""@[2] != "\tCount: "@[2]);
            reveal_strlit("\tObjectType: ");
            assert("\tCreator: \"Cube Bauhaus rig bay\""@[1] != "\tObjectType: "@[1]);
            reveal_strlit("\t\tNbPoseNodes: ");
            assert("\tCreator: \"Cube Bauhaus rig bay\""@[1] != "\t\tNbPoseNodes: "@[1]);
            reveal_strlit("\t;");
            assert("\tCreator: \"Cube Bauhaus rig bay\""@[1] != "\t;"@[1]);
        }
        plain_is_skipped(s7, "\tCreator: \"Cube Bauhaus rig bay\""@);
    }
    let s9 = with_line(s8, "}"@);
    assert(s9 == s8) by {
        assert(is_plain("}"@)) by {
            reveal_strlit("}");
            other_is_plain("}"@, 0, '}');
        }
        plain_is_skipped(s8, "}"@);
    }
    let s10 = with_line(s9, nothing);
    empty_is_skipped(s9);
    let s11 = with_line(s10, "GlobalSettings:  {"@);
    assert(s11 == s10) by {
        assert(is_plain("GlobalSettings:  {"@)) by {
            reveal_strlit("GlobalSettings:  {");
            other_is_plain("GlobalSettings:  {"@, 0, 'G');
        }
        plain_is_skipped(s10, "GlobalSettings:  {"@);
    }
    let s12 = with_line(s11, "\tVersion: 1000"@);
    assert(s12 == s11) by {
        assert(is_plain("\tVersion: 1000"@)) by {
            reveal_strlit("\tVersion: 1000");
            other_is_plain("\tVersion: 1000"@, 1, 'V');
        }
        plain_is_skipped(s11, "\tVersion: 1000"@);
    }
    let s13 = with_line(s12, "\tProperties70:  {"@);
    assert(s13 == s12) by {
        assert(is_plain("\tProperties70:  {"@)) by {
            reveal(is_plain);
            reveal_strlit("\tProperties70:  {");
            reveal_strlit("\tC: \"OO\",");
            assert("\tProperties70:  {"@[1] != "\tC: \"OO\","@[1]);
            reveal_strlit("\t\t\ta: ");
            assert("\tProperties70:  {"@[1] != "\t\t\ta: "@[1]);
            reveal_strlit("\t\t\t\ta: ");
            assert("\tProperties70:  {"@[1] != "\t\t\t\ta: "@[1]);
            reveal_strlit("\tGeometry: ");
            assert("\tProperties70:  {"@[1] != "\tGeometry: "@[1]);
            reveal_strlit("\tModel: ");
            assert("\tProperties70:  {"@[1] != "\tModel: "@[1]);
            reveal_strlit("\tDeformer: ");
            assert("\tProperties70:  {"@[1] != "\tDeformer: "@[1]);
            reveal_strlit("\tPose: ");
            assert("\tProperties70:  {"@[2] != "\tPose: "@[2]);
            reveal_strlit("\t\t\tNode: ");
            assert("\tProperties70:  {"@[1] != "\t\t\tNode: "@[1]);
            reveal_strlit("\t\t\tP: ");
            assert("\tProperties70:  {"@[1] != "\t\t\tP: "@[1]);
            reveal_strlit("\tCount: ");
            assert("\tProperties70:  {"@[1] != "\tCount: "@[1]);
            reveal_strlit("\tObjectType: ");
            assert("\tProperties70:  {"@[1] != "\tObjectType: "@[1]);
            reveal_strlit("\t\tNbPoseNodes: ");
            assert("\tProperties70:  {"@[1] != "\t\tNbPoseNodes: "@[1]);
            reveal_strlit("\t;");
            assert("\tProperties70:  {"@[1] != "\t;"@[1]);
        }
        plain_is_skipped(s12, "\tProperties70:  {"@);
    }
    let s14 = with_line(s13, "\t\tP: \"UpAxis\", \"int\", \"Integer\", \"\",1"@);
    assert(s14 == s13) by {
        assert(is_plain("\t\tP: \"UpAxis\", \"int\", \"Integer\", \"\",1"@)) by {
            reveal_strlit("\t\tP: \"UpAxis\", \"int\", \"Integer\", \"\",1");
            other_is_plain("\t\tP: \"UpAxis\", \"int\", \"Integer\", \"\",1"@, 2, 'P');
        }
        plain_is_skipped(s13, "\t\tP: \"UpAxis\", \"int\", \"Integer\", \"\",1"@);
    }
    let s15 = with_line(s14, "\t\tP: \"UpAxisSign\", \"int\", \"Integer\", \"\",1"@);
    assert(s15 == s14) by {
        assert(is_plain("\t\tP: \"UpAxisSign\", \"int\", \"Integer\", \"\",1"@)) by {
            reveal_strlit("\t\tP: \"UpAxisSign\", \"int\", \"Integer\", \"\",1");
            other_is_plain("\t\tP: \"UpAxisSign\", \"int\", \"Integer\", \"\",1"@, 2, 'P');
        }
        plain_is_skipped(s14, "\t\tP: \"UpAxisSign\", \"int\", \"Integer\", \"\",1"@);
    }
    let s16 = with_line(s15, "\t\tP: \"FrontAxis\", \"int\", \"Integer\", \"\",2"@);
    assert(s16 == s15) by {
        assert(is_plain("\t\tP: \"FrontAxis\", \"int\", \"Integer\", \"\",2"@)) by {
            reveal_strlit("\t\tP: \"FrontAxis\", \"int\", \"Integer\", \"\",2");
            other_is_plain("\t\tP: \"FrontAxis\", \"int\", \"Integer\", \"\",2"@, 2, 'P');
        }
        plain_is_skipped(s15, "\t\tP: \"FrontAxis\", \"int\", \"Integer\", \"\",2"@);
    }
    let s17 = with_line(s16, "\t\tP: \"FrontAxisSign\", \"int\", \"Integer\", \"\",1"@);
    assert(s17 == s16) by {
        assert(is_plain("\t\tP: \"FrontAxisSign\", \"int\", \"Integer\", \"\",1"@)) by {
            reveal_strlit("\t\tP: \"FrontAxisSign\", \"int\", \"Integer\", \"\",1");
            other_is_plain("\t\tP: \"FrontAxisSign\", \"int\", \"Integer\", \"\",1"@, 2, 'P');
        }
        plain_is_skipped(s16, "\t\tP: \"FrontAxisSign\", \"int\", \"Integer\", \"\",1"@);
    }
    let s18 = with_line(s17, "\t\tP: \"CoordAxis\", \"int\", \"Integer\", \"\",0"@);
    assert(s18 == s17) by {
        assert(is_plain("\t\tP: \"CoordAxis\", \"int\", \"Integer\", \"\",0"@)) by {
            reveal_strlit("\t\tP: \"CoordAxis\", \"int\", \"Integer\", \"\",0");
            other_is_plain("\t\tP: \"CoordAxis\", \"int\", \"Integer\", \"\",0"@, 2, 'P');
        }
        plain_is_skipped(s17, "\t\tP: \"CoordAxis\", \"int\", \"Integer\", \"\",0"@);
    }
    let s19 = with_line(s18, "\t\tP: \"CoordAxisSign\", \"int\", \"Integer\", \"\",1"@);
    assert(s19 == s18) by {
        assert(is_plain("\t\tP: \"CoordAxisSign\", \"int\", \"Integer\", \"\",1"@)) by {
            reveal_strlit("\t\tP: \"CoordAxisSign\", \"int\", \"Integer\", \"\",1");
            other_is_plain("\t\tP: \"CoordAxisSign\", \"int\", \"Integer\", \"\",1"@, 2, 'P');
        }
        plain_is_skipped(s18, "\t\tP: \"CoordAxisSign\", \"int\", \"Integer\", \"\",1"@);
    }
    let s20 = with_line(s19, "\t\tP: \"UnitScaleFactor\", \"double\", \"Number\", \"\",1.0"@);
    assert(s20 == s19) by {
        assert(is_plain("\t\tP: \"UnitScaleFactor\", \"double\", \"Number\", \"\",1.0"@)) by {
            reveal_strlit("\t\tP: \"UnitScaleFactor\", \"double\", \"Number\", \"\",1.0");
            other_is_plain("\t\tP: \"UnitScaleFactor\", \"double\", \"Number\", \"\",1.0"@, 2, 'P');
        }
        plain_is_skipped(s19, "\t\tP: \"UnitScaleFactor\", \"double\", \"Number\", \"\",1.0"@);
    }
    let s21 = with_line(s20, "\t}"@);
    assert(s21 == s20) by {
        assert(is_plain("\t}"@)) by {
            reveal_strlit("\t}");
            other_is_plain("\t}"@, 1, '}');
        }
        plain_is_skipped(s20, "\t}"@);
    }
    let s22 = with_line(s21, "}"@);
    assert(s22 == s21) by {
        assert(is_plain("}"@)) by {
            reveal_strlit("}");
            other_is_plain("}"@, 0, '}');
        }
        plain_is_skipped(s21, "}"@);
    }
    let s23 = with_line(s22, nothing);
    empty_is_skipped(s22);
    assert(scanned(t1) == (s23, nothing)) by {
        reading::scan_more(t0, "; FBX 7.4.0 project file\n; Exported by Cube Bauhaus rig bay\n; -------------------------------------------\n\nFBXHeaderExtension:  {\n\tFBXHeaderVersion: 1003\n\tFBXVersion: 7400\n\tCreator: \"Cube Bauhaus rig bay\"\n}\n\nGlobalSettings:  {\n\tVersion: 1000\n\tProperties70:  {\n\t\tP: \"UpAxis\", \"int\", \"Integer\", \"\",1\n\t\tP: \"UpAxisSign\", \"int\", \"Integer\", \"\",1\n\t\tP: \"FrontAxis\", \"int\", \"Integer\", \"\",2\n\t\tP: \"FrontAxisSign\", \"int\", \"Integer\", \"\",1\n\t\tP: \"CoordAxis\", \"int\", \"Integer\", \"\",0\n\t\tP: \"CoordAxisSign\", \"int\", \"Integer\", \"\",1\n\t\tP: \"UnitScaleFactor\", \"double\", \"Number\", \"\",1.0\n\t}\n}\n\n"@, unread(), step);
        assert("; FBX 7.4.0 project file\n; Exported by Cube Bauhaus rig bay\n; -------------------------------------------\n\nFBXHeaderExtension:  {\n\tFBXHeaderVersion: 1003\n\tFBXVersion: 7400\n\tCreator: \"Cube Bauhaus rig bay\"\n}\n\nGlobalSettings:  {\n\tVersion: 1000\n\tProperties70:  {\n\t\tP: \"UpAxis\", \"int\", \"Integer\", \"\",1\n\t\tP: \"UpAxisSign\", \"int\", \"Integer\", \"\",1\n\t\tP: \"FrontAxis\", \"int\", \"Integer\", \"\",2\n\t\tP: \"FrontAxisSign\", \"int\", \"Integer\", \"\",1\n\t\tP: \"CoordAxis\", \"int\", \"Integer\", \"\",0\n\t\tP: \"CoordAxisSign\", \"int\", \"Integer\", \"\",1\n\t\tP: \"UnitScaleFactor\", \"double\", \"Number\", \"\",1.0\n\t}\n}\n\n"@ == "; FBX 7.4.0 project file"@ + seq!['\n'] + ("; Exported by Cube Bauhaus rig bay"@ + seq!['\n'] + ("; -------------------------------------------"@ + seq!['\n'] + (nothing + seq!['\n'] + ("FBXHeaderExtension:  {"@ + seq!['\n'] + ("\tFBXHeaderVersion: 1003"@ + seq!['\n'] + ("\tFBXVersion: 7400"@ + seq!['\n'] + ("\tCreator: \"Cube Bauhaus rig bay\""@ + seq!['\n'] + ("}"@ + seq!['\n'] + (nothing + seq!['\n'] + ("GlobalSettings:  {"@ + seq!['\n'] + ("\tVersion: 1000"@ + seq!['\n'] + ("\tProperties70:  {"@ + seq!['\n'] + ("\t\tP: \"UpAxis\", \"int\", \"Integer\", \"\",1"@ + seq!['\n'] + ("\t\tP: \"UpAxisSign\", \"int\", \"Integer\", \"\",1"@ + seq!['\n'] + ("\t\tP: \"FrontAxis\", \"int\", \"Integer\", \"\",2"@ + seq!['\n'] + ("\t\tP: \"FrontAxisSign\", \"int\", \"Integer\", \"\",1"@ + seq!['\n'] + ("\t\tP: \"CoordAxis\", \"int\", \"Integer\", \"\",0"@ + seq!['\n'] + ("\t\tP: \"CoordAxisSign\", \"int\", \"Integer\", \"\",1"@ + seq!['\n'] + ("\t\tP: \"UnitScaleFactor\", \"double\", \"Number\", \"\",1.0"@ + seq!['\n'] + ("\t}"@ + seq!['\n'] + ("}"@ + seq!['\n'] + (nothing + seq!['\n'] + nothing))))))))))))))))))))))) by {
            reveal_strlit("; FBX 7.4.0 project file\n; Exported by Cube Bauhaus rig bay\n; -------------------------------------------\n\nFBXHeaderExtension:  {\n\tFBXHeaderVersion: 1003\n\tFBXVersion: 7400\n\tCreator: \"Cube Bauhaus rig bay\"\n}\n\nGlobalSettings:  {\n\tVersion: 1000\n\tProperties70:  {\n\t\tP: \"UpAxis\", \"int\", \"Integer\", \"\",1\n\t\tP: \"UpAxisSign\", \"int\", \"Integer\", \"\",1\n\t\tP: \"FrontAxis\", \"int\", \"Integer\", \"\",2\n\t\tP: \"FrontAxisSign\", \"int\", \"Integer\", \"\",1\n\t\tP: \"CoordAxis\", \"int\", \"Integer\", \"\",0\n\t\tP: \"CoordAxisSign\", \"int\", \"Integer\", \"\",1\n\t\tP: \"UnitScaleFactor\", \"double\", \"Number\", \"\",1.0\n\t}\n}\n\n");
            reveal_strlit("\t\tP: \"CoordAxis\", \"int\", \"Integer\", \"\",0");
            reveal_strlit("\t\tP: \"CoordAxisSign\", \"int\", \"Integer\", \"\",1");
            reveal_strlit("\t\tP: \"FrontAxis\", \"int\", \"Integer\", \"\",2");
            reveal_strlit("\t\tP: \"FrontAxisSign\", \"int\", \"Integer\", \"\",1");
            reveal_strlit("\t\tP: \"UnitScaleFactor\", \"double\", \"Number\", \"\",1.0");
            reveal_strlit("\t\tP: \"UpAxis\", \"int\", \"Integer\", \"\",1");
            reveal_strlit("\t\tP: \"UpAxisSign\", \"int\", \"Integer\", \"\",1");
            reveal_strlit("\tCreator: \"Cube Bauhaus rig bay\"");
            reveal_strlit("\tFBXHeaderVersion: 1003");
            reveal_strlit("\tFBXVersion: 7400");
            reveal_strlit("\tProperties70:  {");
            reveal_strlit("\tVersion: 1000");
            reveal_strlit("\t}");
            reveal_strlit("; -------------------------------------------");
            reveal_strlit("; Exported by Cube Bauhaus rig bay");
            reveal_strlit("; FBX 7.4.0 project file");
            reveal_strlit("FBXHeaderExtension:  {");
            reveal_strlit("GlobalSettings:  {");
            reveal_strlit("}");
            assert("; FBX 7.4.0 project file\n; Exported by Cube Bauhaus rig bay\n; -------------------------------------------\n\nFBXHeaderExtension:  {\n\tFBXHeaderVersion: 1003\n\tFBXVersion: 7400\n\tCreator: \"Cube Bauhaus rig bay\"\n}\n\nGlobalSettings:  {\n\tVersion: 1000\n\tProperties70:  {\n\t\tP: \"UpAxis\", \"int\", \"Integer\", \"\",1\n\t\tP: \"UpAxisSign\", \"int\", \"Integer\", \"\",1\n\t\tP: \"FrontAxis\", \"int\", \"Integer\", \"\",2\n\t\tP: \"FrontAxisSign\", \"int\", \"Integer\", \"\",1\n\t\tP: \"CoordAxis\", \"int\", \"Integer\", \"\",0\n\t\tP: \"CoordAxisSign\", \"int\", \"Integer\", \"\",1\n\t\tP: \"UnitScaleFactor\", \"double\", \"Number\", \"\",1.0\n\t}\n}\n\n"@ =~= "; FBX 7.4.0 project file"@ + seq!['\n'] + ("; Exported by Cube Bauhaus rig bay"@ + seq!['\n'] + ("; -------------------------------------------"@ + seq!['\n'] + (nothing + seq!['\n'] + ("FBXHeaderExtension:  {"@ + seq!['\n'] + ("\tFBXHeaderVersion: 1003"@ + seq!['\n'] + ("\tFBXVersion: 7400"@ + seq!['\n'] + ("\tCreator: \"Cube Bauhaus rig bay\""@ + seq!['\n'] + ("}"@ + seq!['\n'] + (nothing + seq!['\n'] + ("GlobalSettings:  {"@ + seq!['\n'] + ("\tVersion: 1000"@ + seq!['\n'] + ("\tProperties70:  {"@ + seq!['\n'] + ("\t\tP: \"UpAxis\", \"int\", \"Integer\", \"\",1"@ + seq!['\n'] + ("\t\tP: \"UpAxisSign\", \"int\", \"Integer\", \"\",1"@ + seq!['\n'] + ("\t\tP: \"FrontAxis\", \"int\", \"Integer\", \"\",2"@ + seq!['\n'] + ("\t\tP: \"FrontAxisSign\", \"int\", \"Integer\", \"\",1"@ + seq!['\n'] + ("\t\tP: \"CoordAxis\", \"int\", \"Integer\", \"\",0"@ + seq!['\n'] + ("\t\tP: \"CoordAxisSign\", \"int\", \"Integer\", \"\",1"@ + seq!['\n'] + ("\t\tP: \"UnitScaleFactor\", \"double\", \"Number\", \"\",1.0"@ + seq!['\n'] + ("\t}"@ + seq!['\n'] + ("}"@ + seq!['\n'] + (nothing + seq!['\n'] + nothing)))))))))))))))))))))));
        }
        assert(!"; FBX 7.4.0 project file"@.contains('\n')) by {
            reveal_strlit("; FBX 7.4.0 project file");
        }
        reading::scan_line(s0, nothing, "; FBX 7.4.0 project file"@, ("; Exported by Cube Bauhaus rig bay"@ + seq!['\n'] + ("; -------------------------------------------"@ + seq!['\n'] + (nothing + seq!['\n'] + ("FBXHeaderExtension:  {"@ + seq!['\n'] + ("\tFBXHeaderVersion: 1003"@ + seq!['\n'] + ("\tFBXVersion: 7400"@ + seq!['\n'] + ("\tCreator: \"Cube Bauhaus rig bay\""@ + seq!['\n'] + ("}"@ + seq!['\n'] + (nothing + seq!['\n'] + ("GlobalSettings:  {"@ + seq!['\n'] + ("\tVersion: 1000"@ + seq!['\n'] + ("\tProperties70:  {"@ + seq!['\n'] + ("\t\tP: \"UpAxis\", \"int\", \"Integer\", \"\",1"@ + seq!['\n'] + ("\t\tP: \"UpAxisSign\", \"int\", \"Integer\", \"\",1"@ + seq!['\n'] + ("\t\tP: \"FrontAxis\", \"int\", \"Integer\", \"\",2"@ + seq!['\n'] + ("\t\tP: \"FrontAxisSign\", \"int\", \"Integer\", \"\",1"@ + seq!['\n'] + ("\t\tP: \"CoordAxis\", \"int\", \"Integer\", \"\",0"@ + seq!['\n'] + ("\t\tP: \"CoordAxisSign\", \"int\", \"Integer\", \"\",1"@ + seq!['\n'] + ("\t\tP: \"UnitScaleFactor\", \"double\", \"Number\", \"\",1.0"@ + seq!['\n'] + ("\t}"@ + seq!['\n'] + ("}"@ + seq!['\n'] + (nothing + seq!['\n'] + nothing)))))))))))))))))))))), step);
        assert(nothing + "; FBX 7.4.0 project file"@ =~= "; FBX 7.4.0 project file"@);
        assert(!"; Exported by Cube Bauhaus rig bay"@.contains('\n')) by {
            reveal_strlit("; Exported by Cube Bauhaus rig bay");
        }
        reading::scan_line(s1, nothing, "; Exported by Cube Bauhaus rig bay"@, ("; -------------------------------------------"@ + seq!['\n'] + (nothing + seq!['\n'] + ("FBXHeaderExtension:  {"@ + seq!['\n'] + ("\tFBXHeaderVersion: 1003"@ + seq!['\n'] + ("\tFBXVersion: 7400"@ + seq!['\n'] + ("\tCreator: \"Cube Bauhaus rig bay\""@ + seq!['\n'] + ("}"@ + seq!['\n'] + (nothing + seq!['\n'] + ("GlobalSettings:  {"@ + seq!['\n'] + ("\tVersion: 1000"@ + seq!['\n'] + ("\tProperties70:  {"@ + seq!['\n'] + ("\t\tP: \"UpAxis\", \"int\", \"Integer\", \"\",1"@ + seq!['\n'] + ("\t\tP: \"UpAxisSign\", \"int\", \"Integer\", \"\",1"@ + seq!['\n'] + ("\t\tP: \"FrontAxis\", \"int\", \"Integer\", \"\",2"@ + seq!['\n'] + ("\t\tP: \"FrontAxisSign\", \"int\", \"Integer\", \"\",1"@ + seq!['\n'] + ("\t\tP: \"CoordAxis\", \"int\", \"Integer\", \"\",0"@ + seq!['\n'] + ("\t\tP: \"CoordAxisSign\", \"int\", \"Integer\", \"\",1"@ + seq!['\n'] + ("\t\tP: \"UnitScaleFactor\", \"double\", \"Number\", \"\",1.0"@ + seq!['\n'] + ("\t}"@ + seq!['\n'] + ("}"@ + seq!['\n'] + (nothing + seq!['\n'] + nothing))))))))))))))))))))), step);
        assert(nothing + "; Exported by Cube Bauhaus rig bay"@ =~= "; Exported by Cube Bauhaus rig bay"@);
        assert(!"; -------------------------------------------"@.contains('\n')) by {
            reveal_strlit("; -------------------------------------------");
        }
        reading::scan_line(s2, nothing, "; -------------------------------------------"@, (nothing + seq!['\n'] + ("FBXHeaderExtension:  {"@ + seq!['\n'] + ("\tFBXHeaderVersion: 1003"@ + seq!['\n'] + ("\tFBXVersion: 7400"@ + seq!['\n'] + ("\tCreator: \"Cube Bauhaus rig bay\""@ + seq!['\n'] + ("}"@ + seq!['\n'] + (nothing + seq!['\n'] + ("GlobalSettings:  {"@ + seq!['\n'] + ("\tVersion: 1000"@ + seq!['\n'] + ("\tProperties70:  {"@ + seq!['\n'] + ("\t\tP: \"UpAxis\", \"int\", \"Integer\", \"\",1"@ + seq!['\n'] + ("\t\tP: \"UpAxisSign\", \"int\", \"Integer\", \"\",1"@ + seq!['\n'] + ("\t\tP: \"FrontAxis\", \"int\", \"Integer\", \"\",2"@ + seq!['\n'] + ("\t\tP: \"FrontAxisSign\", \"int\", \"Integer\", \"\",1"@ + seq!['\n'] + ("\t\tP: \"CoordAxis\", \"int\", \"Integer\", \"\",0"@ + seq!['\n'] + ("\t\tP: \"CoordAxisSign\", \"int\", \"Integer\", \"\",1"@ + seq!['\n'] + ("\t\tP: \"UnitScaleFactor\", \"double\", \"Number\", \"\",1.0"@ + seq!['\n'] + ("\t}"@ + seq!['\n'] + ("}"@ + seq!['\n'] + (nothing + seq!['\n'] + nothing)))))))))))))))))))), step);
        assert(nothing + "; -------------------------------------------"@ =~= "; -------------------------------------------"@);
        reading::scan_line(s3, nothing, nothing, ("FBXHeaderExtension:  {"@ + seq!['\n'] + ("\tFBXHeaderVersion: 1003"@ + seq!['\n'] + ("\tFBXVersion: 7400"@ + seq!['\n'] + ("\tCreator: \"Cube Bauhaus rig bay\""@ + seq!['\n'] + ("}"@ + seq!['\n'] + (nothing + seq!['\n'] + ("GlobalSettings:  {"@ + seq!['\n'] + ("\tVersion: 1000"@ + seq!['\n'] + ("\tProperties70:  {"@ + seq!['\n'] + ("\t\tP: \"UpAxis\", \"int\", \"Integer\", \"\",1"@ + seq!['\n'] + ("\t\tP: \"UpAxisSign\", \"int\", \"Integer\", \"\",1"@ + seq!['\n'] + ("\t\tP: \"FrontAxis\", \"int\", \"Integer\", \"\",2"@ + seq!['\n'] + ("\t\tP: \"FrontAxisSign\", \"int\", \"Integer\", \"\",1"@ + seq!['\n'] + ("\t\tP: \"CoordAxis\", \"int\", \"Integer\", \"\",0"@ + seq!['\n'] + ("\t\tP: \"CoordAxisSign\", \"int\", \"Integer\", \"\",1"@ + seq!['\n'] + ("\t\tP: \"UnitScaleFactor\", \"double\", \"Number\", \"\",1.0"@ + seq!['\n'] + ("\t}"@ + seq!['\n'] + ("}"@ + seq!['\n'] + (nothing + seq!['\n'] + nothing))))))))))))))))))), step);
        assert(nothing + nothing =~= nothing);
        assert(!"FBXHeaderExtension:  {"@.contains('\n')) by {
            reveal_strlit("FBXHeaderExtension:  {");
        }
        reading::scan_line(s4, nothing, "FBXHeaderExtension:  {"@, ("\tFBXHeaderVersion: 1003"@ + seq!['\n'] + ("\tFBXVersion: 7400"@ + seq!['\n'] + ("\tCreator: \"Cube Bauhaus rig bay\""@ + seq!['\n'] + ("}"@ + seq!['\n'] + (nothing + seq!['\n'] + ("GlobalSettings:  {"@ + seq!['\n'] + ("\tVersion: 1000"@ + seq!['\n'] + ("\tProperties70:  {"@ + seq!['\n'] + ("\t\tP: \"UpAxis\", \"int\", \"Integer\", \"\",1"@ + seq!['\n'] + ("\t\tP: \"UpAxisSign\", \"int\", \"Integer\", \"\",1"@ + seq!['\n'] + ("\t\tP: \"FrontAxis\", \"int\", \"Integer\", \"\",2"@ + seq!['\n'] + ("\t\tP: \"FrontAxisSign\", \"int\", \"Integer\", \"\",1"@ + seq!['\n'] + ("\t\tP: \"CoordAxis\", \"int\", \"Integer\", \"\",0"@ + seq!['\n'] + ("\t\tP: \"CoordAxisSign\", \"int\", \"Integer\", \"\",1"@ + seq!['\n'] + ("\t\tP: \"UnitScaleFactor\", \"double\", \"Number\", \"\",1.0"@ + seq!['\n'] + ("\t}"@ + seq!['\n'] + ("}"@ + seq!['\n'] + (nothing + seq!['\n'] + nothing)))))))))))))))))), step);
        assert(nothing + "FBXHeaderExtension:  {"@ =~= "FBXHeaderExtension:  {"@);
        assert(!"\tFBXHeaderVersion: 1003"@.contains('\n')) by {
            reveal_strlit("\tFBXHeaderVersion: 1003");
        }
        reading::scan_line(s5, nothing, "\tFBXHeaderVersion: 1003"@, ("\tFBXVersion: 7400"@ + seq!['\n'] + ("\tCreator: \"Cube Bauhaus rig bay\""@ + seq!['\n'] + ("}"@ + seq!['\n'] + (nothing + seq!['\n'] + ("GlobalSettings:  {"@ + seq!['\n'] + ("\tVersion: 1000"@ + seq!['\n'] + ("\tProperties70:  {"@ + seq!['\n'] + ("\t\tP: \"UpAxis\", \"int\", \"Integer\", \"\",1"@ + seq!['\n'] + ("\t\tP: \"UpAxisSign\", \"int\", \"Integer\", \"\",1"@ + seq!['\n'] + ("\t\tP: \"FrontAxis\", \"int\", \"Integer\", \"\",2"@ + seq!['\n'] + ("\t\tP: \"FrontAxisSign\", \"int\", \"Integer\", \"\",1"@ + seq!['\n'] + ("\t\tP: \"CoordAxis\", \"int\", \"Integer\", \"\",0"@ + seq!['\n'] + ("\t\tP: \"CoordAxisSign\", \"int\", \"Integer\", \"\",1"@ + seq!['\n'] + ("\t\tP: \"UnitScaleFactor\", \"double\", \"Number\", \"\",1.0"@ + seq!['\n'] + ("\t}"@ + seq!['\n'] + ("}"@ + seq!['\n'] + (nothing + seq!['\n'] + nothing))))))))))))))))), step);
        assert(nothing + "\tFBXHeaderVersion: 1003"@ =~= "\tFBXHeaderVersion: 1003"@);
        assert(!"\tFBXVersion: 7400"@.contains('\n')) by {
            reveal_strlit("\tFBXVersion: 7400");
        }
        reading::scan_line(s6, nothing, "\tFBXVersion: 7400"@, ("\tCreator: \"Cube Bauhaus rig bay\""@ + seq!['\n'] + ("}"@ + seq!['\n'] + (nothing + seq!['\n'] + ("GlobalSettings:  {"@ + seq!['\n'] + ("\tVersion: 1000"@ + seq!['\n'] + ("\tProperties70:  {"@ + seq!['\n'] + ("\t\tP: \"UpAxis\", \"int\", \"Integer\", \"\",1"@ + seq!['\n'] + ("\t\tP: \"UpAxisSign\", \"int\", \"Integer\", \"\",1"@ + seq!['\n'] + ("\t\tP: \"FrontAxis\", \"int\", \"Integer\", \"\",2"@ + seq!['\n'] + ("\t\tP: \"FrontAxisSign\", \"int\", \"Integer\", \"\",1"@ + seq!['\n'] + ("\t\tP: \"CoordAxis\", \"int\", \"Integer\", \"\",0"@ + seq!['\n'] + ("\t\tP: \"CoordAxisSign\", \"int\", \"Integer\", \"\",1"@ + seq!['\n'] + ("\t\tP: \"UnitScaleFactor\", \"double\", \"Number\", \"\",1.0"@ + seq!['\n'] + ("\t}"@ + seq!['\n'] + ("}"@ + seq!['\n'] + (nothing + seq!['\n'] + nothing)))))))))))))))), step);
        assert(nothing + "\tFBXVersion: 7400"@ =~= "\tFBXVersion: 7400"@);
        assert(!"\tCreator: \"Cube Bauhaus rig bay\""@.contains('\n')) by {
            reveal_strlit("\tCreator: \"Cube Bauhaus rig bay\"");
        }
        reading::scan_line(s7, nothing, "\tCreator: \"Cube Bauhaus rig bay\""@, ("}"@ + seq!['\n'] + (nothing + seq!['\n'] + ("GlobalSettings:  {"@ + seq!['\n'] + ("\tVersion: 1000"@ + seq!['\n'] + ("\tProperties70:  {"@ + seq!['\n'] + ("\t\tP: \"UpAxis\", \"int\", \"Integer\", \"\",1"@ + seq!['\n'] + ("\t\tP: \"UpAxisSign\", \"int\", \"Integer\", \"\",1"@ + seq!['\n'] + ("\t\tP: \"FrontAxis\", \"int\", \"Integer\", \"\",2"@ + seq!['\n'] + ("\t\tP: \"FrontAxisSign\", \"int\", \"Integer\", \"\",1"@ + seq!['\n'] + ("\t\tP: \"CoordAxis\", \"int\", \"Integer\", \"\",0"@ + seq!['\n'] + ("\t\tP: \"CoordAxisSign\", \"int\", \"Integer\", \"\",1"@ + seq!['\n'] + ("\t\tP: \"UnitScaleFactor\", \"double\", \"Number\", \"\",1.0"@ + seq!['\n'] + ("\t}"@ + seq!['\n'] + ("}"@ + seq!['\n'] + (nothing + seq!['\n'] + nothing))))))))))))))), step);
        assert(nothing + "\tCreator: \"Cube Bauhaus rig bay\""@ =~= "\tCreator: \"Cube Bauhaus rig bay\""@);
        assert(!"}"@.contains('\n')) by {
            reveal_strlit("}");
        }
        reading::scan_line(s8, nothing, "}"@, (nothing + seq!['\n'] + ("GlobalSettings:  {"@ + seq!['\n'] + ("\tVersion: 1000"@ + seq!['\n'] + ("\tProperties70:  {"@ + seq!['\n'] + ("\t\tP: \"UpAxis\", \"int\", \"Integer\", \"\",1"@ + seq!['\n'] + ("\t\tP: \"UpAxisSign\", \"int\", \"Integer\", \"\",1"@ + seq!['\n'] + ("\t\tP: \"FrontAxis\", \"int\", \"Integer\", \"\",2"@ + seq!['\n'] + ("\t\tP: \"FrontAxisSign\", \"int\", \"Integer\", \"\",1"@ + seq!['\n'] + ("\t\tP: \"CoordAxis\", \"int\", \"Integer\", \"\",0"@ + seq!['\n'] + ("\t\tP: \"CoordAxisSign\", \"int\", \"Integer\", \"\",1"@ + seq!['\n'] + ("\t\tP: \"UnitScaleFactor\", \"double\", \"Number\", \"\",1.0"@ + seq!['\n'] + ("\t}"@ + seq!['\n'] + ("}"@ + seq!['\n'] + (nothing + seq!['\n'] + nothing)))))))))))))), step);
        assert(nothing + "}"@ =~= "}"@);
        reading::scan_line(s9, nothing, nothing, ("GlobalSettings:  {"@ + seq!['\n'] + ("\tVersion: 1000"@ + seq!['\n'] + ("\tProperties70:  {"@ + seq!['\n'] + ("\t\tP: \"UpAxis\", \"int\", \"Integer\", \"\",1"@ + seq!['\n'] + ("\t\tP: \"UpAxisSign\", \"int\", \"Integer\", \"\",1"@ + seq!['\n'] + ("\t\tP: \"FrontAxis\", \"int\", \"Integer\", \"\",2"@ + seq!['\n'] + ("\t\tP: \"FrontAxisSign\", \"int\", \"Integer\", \"\",1"@ + seq!['\n'] + ("\t\tP: \"CoordAxis\", \"int\", \"Integer\", \"\",0"@ + seq!['\n'] + ("\t\tP: \"CoordAxisSign\", \"int\", \"Integer\", \"\",1"@ + seq!['\n'] + ("\t\tP: \"UnitScaleFactor\", \"double\", \"Number\", \"\",1.0"@ + seq!['\n'] + ("\t}"@ + seq!['\n'] + ("}"@ + seq!['\n'] + (nothing + seq!['\n'] + nothing))))))))))))), step);
        assert(nothing + nothing =~= nothing);
        assert(!"GlobalSettings:  {"@.contains('\n')) by {
            reveal_strlit("GlobalSettings:  {");
        }
        reading::scan_line(s10, nothing, "GlobalSettings:  {"@, ("\tVersion: 1000"@ + seq!['\n'] + ("\tProperties70:  {"@ + seq!['\n'] + ("\t\tP: \"UpAxis\", \"int\", \"Integer\", \"\",1"@ + seq!['\n'] + ("\t\tP: \"UpAxisSign\", \"int\", \"Integer\", \"\",1"@ + seq!['\n'] + ("\t\tP: \"FrontAxis\", \"int\", \"Integer\", \"\",2"@ + seq!['\n'] + ("\t\tP: \"FrontAxisSign\", \"int\", \"Integer\", \"\",1"@ + seq!['\n'] + ("\t\tP: \"CoordAxis\", \"int\", \"Integer\", \"\",0"@ + seq!['\n'] + ("\t\tP: \"CoordAxisSign\", \"int\", \"Integer\", \"\",1"@ + seq!['\n'] + ("\t\tP: \"UnitScaleFactor\", \"double\", \"Number\", \"\",1.0"@ + seq!['\n'] + ("\t}"@ + seq!['\n'] + ("}"@ + seq!['\n'] + (nothing + seq!['\n'] + nothing)))))))))))), step);
        assert(nothing + "GlobalSettings:  {"@ =~= "GlobalSettings:  {"@);
        assert(!"\tVersion: 1000"@.contains('\n')) by {
            reveal_strlit("\tVersion: 1000");
        }
        reading::scan_line(s11, nothing, "\tVersion: 1000"@, ("\tProperties70:  {"@ + seq!['\n'] + ("\t\tP: \"UpAxis\", \"int\", \"Integer\", \"\",1"@ + seq!['\n'] + ("\t\tP: \"UpAxisSign\", \"int\", \"Integer\", \"\",1"@ + seq!['\n'] + ("\t\tP: \"FrontAxis\", \"int\", \"Integer\", \"\",2"@ + seq!['\n'] + ("\t\tP: \"FrontAxisSign\", \"int\", \"Integer\", \"\",1"@ + seq!['\n'] + ("\t\tP: \"CoordAxis\", \"int\", \"Integer\", \"\",0"@ + seq!['\n'] + ("\t\tP: \"CoordAxisSign\", \"int\", \"Integer\", \"\",1"@ + seq!['\n'] + ("\t\tP: \"UnitScaleFactor\", \"double\", \"Number\", \"\",1.0"@ + seq!['\n'] + ("\t}"@ + seq!['\n'] + ("}"@ + seq!['\n'] + (nothing + seq!['\n'] + nothing))))))))))), step);
        assert(nothing + "\tVersion: 1000"@ =~= "\tVersion: 1000"@);
        assert(!"\tProperties70:  {"@.contains('\n')) by {
            reveal_strlit("\tProperties70:  {");
        }
        reading::scan_line(s12, nothing, "\tProperties70:  {"@, ("\t\tP: \"UpAxis\", \"int\", \"Integer\", \"\",1"@ + seq!['\n'] + ("\t\tP: \"UpAxisSign\", \"int\", \"Integer\", \"\",1"@ + seq!['\n'] + ("\t\tP: \"FrontAxis\", \"int\", \"Integer\", \"\",2"@ + seq!['\n'] + ("\t\tP: \"FrontAxisSign\", \"int\", \"Integer\", \"\",1"@ + seq!['\n'] + ("\t\tP: \"CoordAxis\", \"int\", \"Integer\", \"\",0"@ + seq!['\n'] + ("\t\tP: \"CoordAxisSign\", \"int\", \"Integer\", \"\",1"@ + seq!['\n'] + ("\t\tP: \"UnitScaleFactor\", \"double\", \"Number\", \"\",1.0"@ + seq!['\n'] + ("\t}"@ + seq!['\n'] + ("}"@ + seq!['\n'] + (nothing + seq!['\n'] + nothing)))))))))), step);
        assert(nothing + "\tProperties70:  {"@ =~= "\tProperties70:  {"@);
        assert(!"\t\tP: \"UpAxis\", \"int\", \"Integer\", \"\",1"@.contains('\n')) by {
            reveal_strlit("\t\tP: \"UpAxis\", \"int\", \"Integer\", \"\",1");
        }
        reading::scan_line(s13, nothing, "\t\tP: \"UpAxis\", \"int\", \"Integer\", \"\",1"@, ("\t\tP: \"UpAxisSign\", \"int\", \"Integer\", \"\",1"@ + seq!['\n'] + ("\t\tP: \"FrontAxis\", \"int\", \"Integer\", \"\",2"@ + seq!['\n'] + ("\t\tP: \"FrontAxisSign\", \"int\", \"Integer\", \"\",1"@ + seq!['\n'] + ("\t\tP: \"CoordAxis\", \"int\", \"Integer\", \"\",0"@ + seq!['\n'] + ("\t\tP: \"CoordAxisSign\", \"int\", \"Integer\", \"\",1"@ + seq!['\n'] + ("\t\tP: \"UnitScaleFactor\", \"double\", \"Number\", \"\",1.0"@ + seq!['\n'] + ("\t}"@ + seq!['\n'] + ("}"@ + seq!['\n'] + (nothing + seq!['\n'] + nothing))))))))), step);
        assert(nothing + "\t\tP: \"UpAxis\", \"int\", \"Integer\", \"\",1"@ =~= "\t\tP: \"UpAxis\", \"int\", \"Integer\", \"\",1"@);
        assert(!"\t\tP: \"UpAxisSign\", \"int\", \"Integer\", \"\",1"@.contains('\n')) by {
            reveal_strlit("\t\tP: \"UpAxisSign\", \"int\", \"Integer\", \"\",1");
        }
        reading::scan_line(s14, nothing, "\t\tP: \"UpAxisSign\", \"int\", \"Integer\", \"\",1"@, ("\t\tP: \"FrontAxis\", \"int\", \"Integer\", \"\",2"@ + seq!['\n'] + ("\t\tP: \"FrontAxisSign\", \"int\", \"Integer\", \"\",1"@ + seq!['\n'] + ("\t\tP: \"CoordAxis\", \"int\", \"Integer\", \"\",0"@ + seq!['\n'] + ("\t\tP: \"CoordAxisSign\", \"int\", \"Integer\", \"\",1"@ + seq!['\n'] + ("\t\tP: \"UnitScaleFactor\", \"double\", \"Number\", \"\",1.0"@ + seq!['\n'] + ("\t}"@ + seq!['\n'] + ("}"@ + seq!['\n'] + (nothing + seq!['\n'] + nothing)))))))), step);
        assert(nothing + "\t\tP: \"UpAxisSign\", \"int\", \"Integer\", \"\",1"@ =~= "\t\tP: \"UpAxisSign\", \"int\", \"Integer\", \"\",1"@);
        assert(!"\t\tP: \"FrontAxis\", \"int\", \"Integer\", \"\",2"@.contains('\n')) by {
            reveal_strlit("\t\tP: \"FrontAxis\", \"int\", \"Integer\", \"\",2");
        }
        reading::scan_line(s15, nothing, "\t\tP: \"FrontAxis\", \"int\", \"Integer\", \"\",2"@, ("\t\tP: \"FrontAxisSign\", \"int\", \"Integer\", \"\",1"@ + seq!['\n'] + ("\t\tP: \"CoordAxis\", \"int\", \"Integer\", \"\",0"@ + seq!['\n'] + ("\t\tP: \"CoordAxisSign\", \"int\", \"Integer\", \"\",1"@ + seq!['\n'] + ("\t\tP: \"UnitScaleFactor\", \"double\", \"Number\", \"\",1.0"@ + seq!['\n'] + ("\t}"@ + seq!['\n'] + ("}"@ + seq!['\n'] + (nothing + seq!['\n'] + nothing))))))), step);
        assert(nothing + "\t\tP: \"FrontAxis\", \"int\", \"Integer\", \"\",2"@ =~= "\t\tP: \"FrontAxis\", \"int\", \"Integer\", \"\",2"@);
        assert(!"\t\tP: \"FrontAxisSign\", \"int\", \"Integer\", \"\",1"@.contains('\n')) by {
            reveal_strlit("\t\tP: \"FrontAxisSign\", \"int\", \"Integer\", \"\",1");
        }
        reading::scan_line(s16, nothing, "\t\tP: \"FrontAxisSign\", \"int\", \"Integer\", \"\",1"@, ("\t\tP: \"CoordAxis\", \"int\", \"Integer\", \"\",0"@ + seq!['\n'] + ("\t\tP: \"CoordAxisSign\", \"int\", \"Integer\", \"\",1"@ + seq!['\n'] + ("\t\tP: \"UnitScaleFactor\", \"double\", \"Number\", \"\",1.0"@ + seq!['\n'] + ("\t}"@ + seq!['\n'] + ("}"@ + seq!['\n'] + (nothing + seq!['\n'] + nothing)))))), step);
        assert(nothing + "\t\tP: \"FrontAxisSign\", \"int\", \"Integer\", \"\",1"@ =~= "\t\tP: \"FrontAxisSign\", \"int\", \"Integer\", \"\",1"@);
        assert(!"\t\tP: \"CoordAxis\", \"int\", \"Integer\", \"\",0"@.contains('\n')) by {
            reveal_strlit("\t\tP: \"CoordAxis\", \"int\", \"Integer\", \"\",0");
        }
        reading::scan_line(s17, nothing, "\t\tP: \"CoordAxis\", \"int\", \"Integer\", \"\",0"@, ("\t\tP: \"CoordAxisSign\", \"int\", \"Integer\", \"\",1"@ + seq!['\n'] + ("\t\tP: \"UnitScaleFactor\", \"double\", \"Number\", \"\",1.0"@ + seq!['\n'] + ("\t}"@ + seq!['\n'] + ("}"@ + seq!['\n'] + (nothing + seq!['\n'] + nothing))))), step);
        assert(nothing + "\t\tP: \"CoordAxis\", \"int\", \"Integer\", \"\",0"@ =~= "\t\tP: \"CoordAxis\", \"int\", \"Integer\", \"\",0"@);
        assert(!"\t\tP: \"CoordAxisSign\", \"int\", \"Integer\", \"\",1"@.contains('\n')) by {
            reveal_strlit("\t\tP: \"CoordAxisSign\", \"int\", \"Integer\", \"\",1");
        }
        reading::scan_line(s18, nothing, "\t\tP: \"CoordAxisSign\", \"int\", \"Integer\", \"\",1"@, ("\t\tP: \"UnitScaleFactor\", \"double\", \"Number\", \"\",1.0"@ + seq!['\n'] + ("\t}"@ + seq!['\n'] + ("}"@ + seq!['\n'] + (nothing + seq!['\n'] + nothing)))), step);
        assert(nothing + "\t\tP: \"CoordAxisSign\", \"int\", \"Integer\", \"\",1"@ =~= "\t\tP: \"CoordAxisSign\", \"int\", \"Integer\", \"\",1"@);
        assert(!"\t\tP: \"UnitScaleFactor\", \"double\", \"Number\", \"\",1.0"@.contains('\n')) by {
            reveal_strlit("\t\tP: \"UnitScaleFactor\", \"double\", \"Number\", \"\",1.0");
        }
        reading::scan_line(s19, nothing, "\t\tP: \"UnitScaleFactor\", \"double\", \"Number\", \"\",1.0"@, ("\t}"@ + seq!['\n'] + ("}"@ + seq!['\n'] + (nothing + seq!['\n'] + nothing))), step);
        assert(nothing + "\t\tP: \"UnitScaleFactor\", \"double\", \"Number\", \"\",1.0"@ =~= "\t\tP: \"UnitScaleFactor\", \"double\", \"Number\", \"\",1.0"@);
        assert(!"\t}"@.contains('\n')) by {
            reveal_strlit("\t}");
        }
        reading::scan_line(s20, nothing, "\t}"@, ("}"@ + seq!['\n'] + (nothing + seq!['\n'] + nothing)), step);
        assert(nothing + "\t}"@ =~= "\t}"@);
        assert(!"}"@.contains('\n')) by {
            reveal_strlit("}");
        }
        reading::scan_line(s21, nothing, "}"@, (nothing + seq!['\n'] + nothing), step);
        assert(nothing + "}"@ =~= "}"@);
        reading::scan_line(s22, nothing, nothing, nothing, step);
        assert(nothing + nothing =~= nothing);
        reading::scan_nothing(s23, nothing, step);
    }
    assert(fbx::header_text(out) == t1);
}


/// The declared counts: of all objects, then of each kind.
pub open spec fn declared_counts(bones: nat) -> Seq<Seq<Seq<char>>> {
    seq![
        seq![text::decimal(2 * bones + 5)],
        counted("\"Geometry\""@, "1"@),
        counted("\"Model\""@, text::decimal(bones + 1)),
        counted("\"Deformer\""@, text::decimal(bones + 1)),
        counted("\"Pose\""@, "1"@),
    ]
}


proof fn definitions_are_read(out: Seq<char>, bones: nat)
    requires
        scanned(out).1.len() == 0,
    ensures
        scanned(fbx::definitions_text(out, bones)) == (
            (FbxReading {
                counts: scanned(out).0.counts + declared_counts(bones),
                ..scanned(out).0
            }),
            Seq::<char>::empty(),
        ),
{
    let step = fbx_step();
    let nothing = Seq::<char>::empty();
    assert(scanned(out) == (scanned(out).0, nothing)) by {
        assert(scanned(out).1 =~= nothing);
    }
    reading::decimal_lacks(2 * bones + 5, '\n');
    reading::decimal_lacks(bones + 1, '\n');
    let t0 = out;
    let s0 = scanned(out).0;
    let t1 = t0 + "Definitions:  {\n\tVersion: 100\n\tCount: "@;
    let s1 = with_line(s0, "Definitions:  {"@);
    assert(s1 == s0) by {
        assert(is_plain("Definitions:  {"@)) by {
            reveal_strlit("Definitions:  {");
            other_is_plain("Definitions:  {"@, 0, 'D');
        }
        plain_is_skipped(s0, "Definitions:  {"@);
    }
    let s2 = with_line(s1, "\tVersion: 100"@);
    assert(s2 == s1) by {
        assert(is_plain("\tVersion: 100"@)) by {
            reveal_strlit("\tVersion: 100");
            other_is_plain("\tVersion: 100"@, 1, 'V');
        }
        plain_is_skipped(s1, "\tVersion: 100"@);
    }
    assert(scanned(t1) == (s2, "\tCount: "@)) by {
        reading::scan_more(t0, "Definitions:  {\n\tVersion: 100\n\tCount: "@, unread(), step);
        assert("Definitions:  {\n\tVersion: 100\n\tCount: "@ == "Definitions:  {"@ + seq!['\n'] + ("\tVersion: 100"@ + seq!['\n'] + "\tCount: "@)) by {
            reveal_strlit("Definitions:  {\n\tVersion: 100\n\tCount: ");
            reveal_strlit("\tCount: ");
            reveal_strlit("\tVersion: 100");
            reveal_strlit("Definitions:  {");
            assert("Definitions:  {\n\tVersion: 100\n\tCount: "@ =~= "Definitions:  {"@ + seq!['\n'] + ("\tVersion: 100"@ + seq!['\n'] + "\tCount: "@));
        }
        assert(!"Definitions:  {"@.contains('\n')) by {
            reveal_strlit("Definitions:  {");
        }
        reading::scan_line(s0, nothing, "Definitions:  {"@, ("\tVersion: 100"@ + seq!['\n'] + "\tCount: "@), step);
        assert(nothing + "Definitions:  {"@ =~= "Definitions:  {"@);
        assert(!"\tVersion: 100"@.contains('\n')) by {
            reveal_strlit("\tVersion: 100");
        }
        reading::scan_line(s1, nothing, "\tVersion: 100"@, "\tCount: "@, step);
        assert(nothing + "\tVersion: 100"@ =~= "\tVersion: 100"@);
        assert(!"\tCount: "@.contains('\n')) by {
            reveal_strlit("\tCount: ");
        }
        reading::scan_plain(s2, nothing, "\tCount: "@, step);
        assert(nothing + "\tCount: "@ =~= "\tCount: "@);
    }
    let t2 = t1 + text::decimal(2 * bones + 5);
    assert(scanned(t2) == (s2, "\tCount: "@ + text::decimal(2 * bones + 5))) by {
        reading::scan_more(t1, text::decimal(2 * bones + 5), unread(), step);
        reading::scan_plain(s2, "\tCount: "@, text::decimal(2 * bones + 5), step);
    }
    let t3 = t2 + "\n\tObjectType: \"Geometry\" { Count: 1 }\n\tObjectType: \"Model\" { Count: "@;
    let s3 = with_line(s2, "\tCount: "@ + text::decimal(2 * bones + 5));
    assert(s3 == (FbxReading { counts: s2.counts.push(seq![text::decimal(2 * bones + 5)]), ..s2 })) by {
        total_line_is_read(s2, text::decimal(2 * bones + 5));
        reading::decimal_lacks(2 * bones + 5, ' ');
        reading::split_whole(text::decimal(2 * bones + 5), ' ');
    }
    let s4 = with_line(s3, "\tObjectType: \"Geometry\" { Count: 1 }"@);
    assert(s4 == (FbxReading { counts: s3.counts.push(counted("\"Geometry\""@, "1"@)), ..s3 })) by {
        assert("\tObjectType: \"Geometry\" { Count: 1 }"@ == "\tObjectType: "@ + ("\"Geometry\" { Count: 1 }"@)) by {
            reveal_strlit("\tObjectType: \"Geometry\" { Count: 1 }");
            reveal_strlit("\tObjectType: ");
            reveal_strlit("\"Geometry\" { Count: 1 }");
            assert("\tObjectType: \"Geometry\" { Count: 1 }"@ =~= "\tObjectType: "@ + "\"Geometry\" { Count: 1 }"@);
            assert("\tObjectType: \"Geometry\" { Count: 1 }"@ =~= "\tObjectType: "@ + ("\"Geometry\" { Count: 1 }"@));
        }
        kind_count_line_is_read(s3, "\"Geometry\" { Count: 1 }"@);
        assert("\"Geometry\" { Count: 1 }"@ == "\"Geometry\""@ + seq![' '] + "{"@ + seq![' '] + "Count:"@ + seq![' '] + "1"@ + seq![' '] + "}"@) by {
            reveal_strlit("\"Geometry\" { Count: 1 }");
            reveal_strlit("\"Geometry\"");
            reveal_strlit("1");
            reveal_strlit("Count:");
            reveal_strlit("{");
            reveal_strlit("}");
            assert("\"Geometry\" { Count: 1 }"@ =~= "\"Geometry\""@ + seq![' '] + "{"@ + seq![' '] + "Count:"@ + seq![' '] + "1"@ + seq![' '] + "}"@);
        }
        assert(!"\"Geometry\""@.contains(' ')) by {
            reveal_strlit("\"Geometry\"");
        }
        assert(!"1"@.contains(' ')) by {
            reveal_strlit("1");
        }
        assert(!"Count:"@.contains(' ')) by {
            reveal_strlit("Count:");
        }
        assert(!"{"@.contains(' ')) by {
            reveal_strlit("{");
        }
        assert(!"}"@.contains(' ')) by {
            reveal_strlit("}");
        }
        fields_are_split("\"Geometry\""@, "{"@, "Count:"@, "1"@, "}"@, ' ');
        reading::split_whole("}"@, ' ');
        assert(seq!["\"Geometry\""@, "{"@, "Count:"@, "1"@] + seq!["}"@] =~= counted("\"Geometry\""@, "1"@));
    }
    assert(scanned(t3) == (s4, "\tObjectType: \"Model\" { Count: "@)) by {
        reading::scan_more(t2, "\n\tObjectType: \"Geometry\" { Count: 1 }\n\tObjectType: \"Model\" { Count: "@, unread(), step);
        assert("\n\tObjectType: \"Geometry\" { Count: 1 }\n\tObjectType: \"Model\" { Count: "@ == nothing + seq!['\n'] + ("\tObjectType: \"Geometry\" { Count: 1 }"@ + seq!['\n'] + "\tObjectType: \"Model\" { Count: "@)) by {
            reveal_strlit("\n\tObjectType: \"Geometry\" { Count: 1 }\n\tObjectType: \"Model\" { Count: ");
            reveal_strlit("\tObjectType: \"Geometry\" { Count: 1 }");
            reveal_strlit("\tObjectType: \"Model\" { Count: ");
            assert("\n\tObjectType: \"Geometry\" { Count: 1 }\n\tObjectType: \"Model\" { Count: "@ =~= nothing + seq!['\n'] + ("\tObjectType: \"Geometry\" { Count: 1 }"@ + seq!['\n'] + "\tObjectType: \"Model\" { Count: "@));
        }
        reading::scan_line(s2, "\tCount: "@ + text::decimal(2 * bones + 5), nothing, ("\tObjectType: \"Geometry\" { Count: 1 }"@ + seq!['\n'] + "\tObjectType: \"Model\" { Count: "@), step);
        assert("\tCount: "@ + text::decimal(2 * bones + 5) + nothing =~= "\tCount: "@ + text::decimal(2 * bones + 5));
        assert(!"\tObjectType: \"Geometry\" { Count: 1 }"@.contains('\n')) by {
            reveal_strlit("\tObjectType: \"Geometry\" { Count: 1 }");
        }
        reading::scan_line(s3, nothing, "\tObjectType: \"Geometry\" { Count: 1 }"@, "\tObjectType: \"Model\" { Count: "@, step);
        assert(nothing + "\tObjectType: \"Geometry\" { Count: 1 }"@ =~= "\tObjectType: \"Geometry\" { Count: 1 }"@);
        assert(!"\tObjectType: \"Model\" { Count: "@.contains('\n')) by {
            reveal_strlit("\tObjectType: \"Model\" { Count: ");
        }
        reading::scan_plain(s4, nothing, "\tObjectType: \"Model\" { Count: "@, step);
        assert(nothing + "\tObjectType: \"Model\" { Count: "@ =~= "\tObjectType: \"Model\" { Count: "@);
    }
    let t4 = t3 + text::decimal(bones + 1);
    assert(scanned(t4) == (s4, "\tObjectType: \"Model\" { Count: "@ + text::decimal(bones + 1))) by {
        reading::scan_more(t3, text::decimal(bones + 1), unread(), step);
        reading::scan_plain(s4, "\tObjectType: \"Model\" { Count: "@, text::decimal(bones + 1), step);
    }
    let t5 = t4 + " }\n\tObjectType: \"Deformer\" { Count: "@;
    let s5 = with_line(s4, "\tObjectType: \"Model\" { Count: "@ + text::decimal(bones + 1) + " }"@);
    assert(s5 == (FbxReading { counts: s4.counts.push(counted("\"Model\""@, text::decimal(bones + 1))), ..s4 })) by {
        assert("\tObjectType: \"Model\" { Count: "@ + text::decimal(bones + 1) + " }"@ == "\tObjectType: "@ + ("\"Model\" { Count: "@ + text::decimal(bones + 1) + " }"@)) by {
            reveal_strlit("\tObjectType: \"Model\" { Count: ");
            reveal_strlit("\tObjectType: ");
            reveal_strlit("\"Model\" { Count: ");
            assert("\tObjectType: \"Model\" { Count: "@ =~= "\tObjectType: "@ + "\"Model\" { Count: "@);
            assert("\tObjectType: \"Model\" { Count: "@ + text::decimal(bones + 1) + " }"@ =~= "\tObjectType: "@ + ("\"Model\" { Count: "@ + text::decimal(bones + 1) + " }"@));
        }
        kind_count_line_is_read(s4, "\"Model\" { Count: "@ + text::decimal(bones + 1) + " }"@);
        assert("\"Model\" { Count: "@ + text::decimal(bones + 1) + " }"@ == "\"Model\""@ + seq![' '] + "{"@ + seq![' '] + "Count:"@ + seq![' '] + text::decimal(bones + 1) + seq![' '] + "}"@) by {
            reveal_strlit("\"Model\" { Count: ");
            reveal_strlit(" }");
            reveal_strlit("}");
            reveal_strlit("\"Model\"");
            reveal_strlit("Count:");
            reveal_strlit("{");
            assert("\"Model\" { Count: "@ =~= "\"Model\""@ + seq![' '] + "{"@ + seq![' '] + "Count:"@ + seq![' ']);
            assert(" }"@ =~= seq![' '] + "}"@);
            assert("\"Model\""@ + seq![' '] + "{"@ + seq![' '] + "Count:"@ + seq![' '] + text::decimal(bones + 1) + (seq![' '] + "}"@) =~= "\"Model\""@ + seq![' '] + "{"@ + seq![' '] + "Count:"@ + seq![' '] + text::decimal(bones + 1) + seq![' '] + "}"@);
        }
        assert(!"\"Model\""@.contains(' ')) by {
            reveal_strlit("\"Model\"");
        }
        assert(!"Count:"@.contains(' ')) by {
            reveal_strlit("Count:");
        }
        assert(!"{"@.contains(' ')) by {
            reveal_strlit("{");
        }
        assert(!"}"@.contains(' ')) by {
            reveal_strlit("}");
        }
        reading::decimal_lacks(bones + 1, ' ');
        fields_are_split("\"Model\""@, "{"@, "Count:"@, text::decimal(bones + 1), "}"@, ' ');
        reading::split_whole("}"@, ' ');
        assert(seq!["\"Model\""@, "{"@, "Count:"@, text::decimal(bones + 1)] + seq!["}"@] =~= counted("\"Model\""@, text::decimal(bones + 1)));
    }
    assert(scanned(t5) == (s5, "\tObjectType: \"Deformer\" { Count: "@)) by {
        reading::scan_more(t4, " }\n\tObjectType: \"Deformer\" { Count: "@, unread(), step);
        assert(" }\n\tObjectType: \"Deformer\" { Count: "@ == " }"@ + seq!['\n'] + "\tObjectType: \"Deformer\" { Count: "@) by {
            reveal_strlit(" }\n\tObjectType: \"Deformer\" { Count: ");
            reveal_strlit("\tObjectType: \"Deformer\" { Count: ");
            reveal_strlit(" }");
            assert(" }\n\tObjectType: \"Deformer\" { Count: "@ =~= " }"@ + seq!['\n'] + "\tObjectType: \"Deformer\" { Count: "@);
        }
        assert(!" }"@.contains('\n')) by {
            reveal_strlit(" }");
        }
        reading::scan_line(s4, "\tObjectType: \"Model\" { Count: "@ + text::decimal(bones + 1), " }"@, "\tObjectType: \"Deformer\" { Count: "@, step);
        assert(!"\tObjectType: \"Deformer\" { Count: "@.contains('\n')) by {
            reveal_strlit("\tObjectType: \"Deformer\" { Count: ");
        }
        reading::scan_plain(s5, nothing, "\tObjectType: \"Deformer\" { Count: "@, step);
        assert(nothing + "\tObjectType: \"Deformer\" { Count: "@ =~= "\tObjectType: \"Deformer\" { Count: "@);
    }
    let t6 = t5 + text::decimal(bones + 1);
    assert(scanned(t6) == (s5, "\tObjectType: \"Deformer\" { Count: "@ + text::decimal(bones + 1))) by {
        reading::scan_more(t5, text::decimal(bones + 1), unread(), step);
        reading::scan_plain(s5, "\tObjectType: \"Deformer\" { Count: "@, text::decimal(bones + 1), step);
    }
    let t7 = t6 + " }\n\tObjectType: \"Pose\" { Count: 1 }\n}\n\n"@;
    let s6 = with_line(s5, "\tObjectType: \"Deformer\" { Count: "@ + text::decimal(bones + 1) + " }"@);
    assert(s6 == (FbxReading { counts: s5.counts.push(counted("\"Deformer\""@, text::decimal(bones + 1))), ..s5 })) by {
        assert("\tObjectType: \"Deformer\" { Count: "@ + text::decimal(bones + 1) + " }"@ == "\tObjectType: "@ + ("\"Deformer\" { Count: "@ + text::decimal(bones + 1) + " }"@)) by {
            reveal_strlit("\tObjectType: \"Deformer\" { Count: ");
            reveal_strlit("\tObjectType: ");
            reveal_strlit("\"Deformer\" { Count: ");
            assert("\tObjectType: \"Deformer\" { Count: "@ =~= "\tObjectType: "@ + "\"Deformer\" { Count: "@);
            assert("\tObjectType: \"Deformer\" { Count: "@ + text::decimal(bones + 1) + " }"@ =~= "\tObjectType: "@ + ("\"Deformer\" { Count: "@ + text::decimal(bones + 1) + " }"@));
        }
        kind_count_line_is_read(s5, "\"Deformer\" { Count: "@ + text::decimal(bones + 1) + " }"@);
        assert("\"Deformer\" { Count: "@ + text::decimal(bones + 1) + " }"@ == "\"Deformer\""@ + seq![' '] + "{"@ + seq![' '] + "Count:"@ + seq![' '] + text::decimal(bones + 1) + seq![' '] + "}"@) by {
            reveal_strlit("\"Deformer\" { Count: ");
            reveal_strlit(" }");
            reveal_strlit("}");
            reveal_strlit("\"Deformer\"");
            reveal_strlit("Count:");
            reveal_strlit("{");
            assert("\"Deformer\" { Count: "@ =~= "\"Deformer\""@ + seq![' '] + "{"@ + seq![' '] + "Count:"@ + seq![' ']);
            assert(" }"@ =~= seq![' '] + "}"@);
            assert("\"Deformer\""@ + seq![' '] + "{"@ + seq![' '] + "Count:"@ + seq![' '] + text::decimal(bones + 1) + (seq![' '] + "}"@) =~= "\"Deformer\""@ + seq![' '] + "{"@ + seq![' '] + "Count:"@ + seq![' '] + text::decimal(bones + 1) + seq![' '] + "}"@);
        }
        assert(!"\"Deformer\""@.contains(' ')) by {
            reveal_strlit("\"Deformer\"");
        }
        assert(!"Count:"@.contains(' ')) by {
            reveal_strlit("Count:");
        }
        assert(!"{"@.contains(' ')) by {
            reveal_strlit("{");
        }
        assert(!"}"@.contains(' ')) by {
            reveal_strlit("}");
        }
        reading::decimal_lacks(bones + 1, ' ');
        fields_are_split("\"Deformer\""@, "{"@, "Count:"@, text::decimal(bones + 1), "}"@, ' ');
        reading::split_whole("}"@, ' ');
        assert(seq!["\"Deformer\""@, "{"@, "Count:"@, text::decimal(bones + 1)] + seq!["}"@] =~= counted("\"Deformer\""@, text::decimal(bones + 1)));
    }
    let s7 = with_line(s6, "\tObjectType: \"Pose\" { Count: 1 }"@);
    assert(s7 == (FbxReading { counts: s6.counts.push(counted("\"Pose\""@, "1"@)), ..s6 })) by {
        assert("\tObjectType: \"Pose\" { Count: 1 }"@ == "\tObjectType: "@ + ("\"Pose\" { Count: 1 }"@)) by {
            reveal_strlit("\tObjectType: \"Pose\" { Count: 1 }");
            reveal_strlit("\tObjectType: ");
            reveal_strlit("\"Pose\" { Count: 1 }");
            assert("\tObjectType: \"Pose\" { Count: 1 }"@ =~= "\tObjectType: "@ + "\"Pose\" { Count: 1 }"@);
            assert("\tObjectType: \"Pose\" { Count: 1 }"@ =~= "\tObjectType: "@ + ("\"Pose\" { Count: 1 }"@));
        }
        kind_count_line_is_read(s6, "\"Pose\" { Count: 1 }"@);
        assert("\"Pose\" { Count: 1 }"@ == "\"Pose\""@ + seq![' '] + "{"@ + seq![' '] + "Count:"@ + seq![' '] + "1"@ + seq![' '] + "}"@) by {
            reveal_strlit("\"Pose\" { Count: 1 }");
            reveal_strlit("\"Pose\"");
            reveal_strlit("1");
            reveal_strlit("Count:");
            reveal_strlit("{");
            reveal_strlit("}");
            assert("\"Pose\" { Count: 1 }"@ =~= "\"Pose\""@ + seq![' '] + "{"@ + seq![' '] + "Count:"@ + seq![' '] + "1"@ + seq![' '] + "}"@);
        }
        assert(!"\"Pose\""@.contains(' ')) by {
            reveal_strlit("\"Pose\"");
        }
        assert(!"1"@.contains(' ')) by {
            reveal_strlit("1");
        }
        assert(!"Count:"@.contains(' ')) by {
            reveal_strlit("Count:");
        }
        assert(!"{"@.contains(' ')) by {
            reveal_strlit("{");
        }
        assert(!"}"@.contains(' ')) by {
            reveal_strlit("}");
        }
        fields_are_split("\"Pose\""@, "{"@, "Count:"@, "1"@, "}"@, ' ');
        reading::split_whole("}"@, ' ');
        assert(seq!["\"Pose\""@, "{"@, "Count:"@, "1"@] + seq!["}"@] =~= counted("\"Pose\""@, "1"@));
    }
    let s8 = with_line(s7, "}"@);
    assert(s8 == s7) by {
        assert(is_plain("}"@)) by {
            reveal_strlit("}");
            other_is_plain("}"@, 0, '}');
        }
        plain_is_skipped(s7, "}"@);
    }
    let s9 = with_line(s8, nothing);
    empty_is_skipped(s8);
    assert(scanned(t7) == (s9, nothing)) by {
        reading::scan_more(t6, " }\n\tObjectType: \"Pose\" { Count: 1 }\n}\n\n"@, unread(), step);
        assert(" }\n\tObjectType: \"Pose\" { Count: 1 }\n}\n\n"@ == " }"@ + seq!['\n'] + ("\tObjectType: \"Pose\" { Count: 1 }"@ + seq!['\n'] + ("}"@ + seq!['\n'] + (nothing + seq!['\n'] + nothing)))) by {
            reveal_strlit(" }\n\tObjectType: \"Pose\" { Count: 1 }\n}\n\n");
            reveal_strlit("\tObjectType: \"Pose\" { Count: 1 }");
            reveal_strlit(" }");
            reveal_strlit("}");
            assert(" }\n\tObjectType: \"Pose\" { Count: 1 }\n}\n\n"@ =~= " }"@ + seq!['\n'] + ("\tObjectType: \"Pose\" { Count: 1 }"@ + seq!['\n'] + ("}"@ + seq!['\n'] + (nothing + seq!['\n'] + nothing))));
        }
        assert(!" }"@.contains('\n')) by {
            reveal_strlit(" }");
        }
        reading::scan_line(s5, "\tObjectType: \"Deformer\" { Count: "@ + text::decimal(bones + 1), " }"@, ("\tObjectType: \"Pose\" { Count: 1 }"@ + seq!['\n'] + ("}"@ + seq!['\n'] + (nothing + seq!['\n'] + nothing))), step);
        assert(!"\tObjectType: \"Pose\" { Count: 1 }"@.contains('\n')) by {
            reveal_strlit("\tObjectType: \"Pose\" { Count: 1 }");
        }
        reading::scan_line(s6, nothing, "\tObjectType: \"Pose\" { Count: 1 }"@, ("}"@ + seq!['\n'] + (nothing + seq!['\n'] + nothing)), step);
        assert(nothing + "\tObjectType: \"Pose\" { Count: 1 }"@ =~= "\tObjectType: \"Pose\" { Count: 1 }"@);
        assert(!"}"@.contains('\n')) by {
            reveal_strlit("}");
        }
        reading::scan_line(s7, nothing, "}"@, (nothing + seq!['\n'] + nothing), step);
        assert(nothing + "}"@ =~= "}"@);
        reading::scan_line(s8, nothing, nothing, nothing, step);
        assert(nothing + nothing =~= nothing);
        reading::scan_nothing(s9, nothing, step);
    }
    assert(fbx::definitions_text(out, bones) == t7);
    assert(s9.counts =~= s0.counts + declared_counts(bones));
}


/// The lists of the geometry.
pub open spec fn geometry_lists(mesh: SkinnedMesh, numbers: FbxNumbers) -> Seq<List> {
    let vertices = mesh.vertices@.len();
    let owner = "1000000"@;
    seq![
        List {
            owner,
            name: "\t\tVertices: "@,
            count: declared(vertices * 3),
            values: decimals(numbers.positions@),
        },
        List {
            owner,
            name: "\t\tPolygonVertexIndex: "@,
            count: declared(mesh.indices@.len()),
            values: polygons(mesh.indices@),
        },
        List {
            owner,
            name: "\t\t\tNormals: "@,
            count: declared(vertices * 3),
            values: decimals(numbers.normals@),
        },
        List {
            owner,
            name: "\t\t\tUV: "@,
            count: declared(vertices * 2),
            values: decimals(numbers.uvs@),
        },
    ]
}

/// The head of the geometry.
pub open spec fn geometry_head() -> Head {
    Head {
        kind: "\tGeometry: "@,
        id: "1000000"@,
        rest: " \"Geometry::mesh\", \"Mesh\" {"@,
    }
}

/// What one reading adds to another, but for the place it has come to.
pub open spec fn adds(
    after: FbxReading,
    before: FbxReading,
    heads: Seq<Head>,
    lists: Seq<List>,
    properties: Seq<Property>,
    links: Seq<Seq<Seq<char>>>,
    counts: Seq<Seq<Seq<char>>>,
) -> bool {
    &&& after.heads == before.heads + heads
    &&& after.lists == before.lists + lists
    &&& after.properties == before.properties + properties
    &&& after.links == before.links + links
    &&& after.counts == before.counts + counts
}


#[verifier::rlimit(100)]
proof fn geometry_is_read(out: Seq<char>, mesh: SkinnedMesh, numbers: FbxNumbers)
    requires
        scanned(out).1.len() == 0,
        are_numbers(numbers.positions@),
        are_numbers(numbers.normals@),
        are_numbers(numbers.uvs@),
    ensures
        scanned(fbx::geometry_text(out, mesh, numbers)).1.len() == 0,
        adds(
            scanned(fbx::geometry_text(out, mesh, numbers)).0,
            scanned(out).0,
            seq![geometry_head()],
            geometry_lists(mesh, numbers),
            Seq::empty(),
            Seq::empty(),
            Seq::empty(),
        ),
{
    let step = fbx_step();
    let nothing = Seq::<char>::empty();
    assert(scanned(out) == (scanned(out).0, nothing)) by {
        assert(scanned(out).1 =~= nothing);
    }
    reading::decimal_lacks(mesh.vertices@.len() * 3, '\n');
    reading::decimal_lacks(mesh.vertices@.len() * 2, '\n');
    reading::decimal_lacks(mesh.indices@.len(), '\n');
    decimals_are_read(numbers.positions@);
    decimals_are_read(numbers.normals@);
    decimals_are_read(numbers.uvs@);
    polygons_are_read(mesh.indices@);
    let t0 = out;
    let s0 = scanned(out).0;
    let t1 = t0 + "\tGeometry: 1000000, \"Geometry::mesh\", \"Mesh\" {\n\t\tVertices: *"@;
    let s1 = with_line(s0, "\tGeometry: 1000000, \"Geometry::mesh\", \"Mesh\" {"@);
    assert(s1 == (FbxReading { heads: s0.heads.push(Head { kind: "\tGeometry: "@, id: "1000000"@, rest: " \"Geometry::mesh\", \"Mesh\" {"@ }), owner: "1000000"@, ..s0 })) by {
        assert("\tGeometry: 1000000, \"Geometry::mesh\", \"Mesh\" {"@ == "\tGeometry: "@ + ("1000000, \"Geometry::mesh\", \"Mesh\" {"@)) by {
            reveal_strlit("\tGeometry: 1000000, \"Geometry::mesh\", \"Mesh\" {");
            reveal_strlit("\tGeometry: ");
            reveal_strlit("1000000, \"Geometry::mesh\", \"Mesh\" {");
            assert("\tGeometry: 1000000, \"Geometry::mesh\", \"Mesh\" {"@ =~= "\tGeometry: "@ + "1000000, \"Geometry::mesh\", \"Mesh\" {"@);
            assert("\tGeometry: 1000000, \"Geometry::mesh\", \"Mesh\" {"@ =~= "\tGeometry: "@ + ("1000000, \"Geometry::mesh\", \"Mesh\" {"@));
        }
        geometry_line_is_read(s0, "1000000, \"Geometry::mesh\", \"Mesh\" {"@);
        assert("1000000, \"Geometry::mesh\", \"Mesh\" {"@ == "1000000"@ + seq![','] + " \"Geometry::mesh\", \"Mesh\" {"@) by {
            reveal_strlit("1000000, \"Geometry::mesh\", \"Mesh\" {");
            reveal_strlit("1000000");
            reveal_strlit(" \"Geometry::mesh\", \"Mesh\" {");
            assert("1000000, \"Geometry::mesh\", \"Mesh\" {"@ =~= "1000000"@ + seq![','] + " \"Geometry::mesh\", \"Mesh\" {"@);
        }
        assert(!"1000000"@.contains(',')) by {
            reveal_strlit("1000000");
        }
        head_is_noted(s0, "\tGeometry: "@, "1000000"@, " \"Geometry::mesh\", \"Mesh\" {"@);
    }
    assert(scanned(t1) == (s1, "\t\tVertices: *"@)) by {
        reading::scan_more(t0, "\tGeometry: 1000000, \"Geometry::mesh\", \"Mesh\" {\n\t\tVertices: *"@, unread(), step);
        assert("\tGeometry: 1000000, \"Geometry::mesh\", \"Mesh\" {\n\t\tVertices: *"@ == "\tGeometry: 1000000, \"Geometry::mesh\", \"Mesh\" {"@ + seq!['\n'] + "\t\tVertices: *"@) by {
            reveal_strlit("\tGeometry: 1000000, \"Geometry::mesh\", \"Mesh\" {\n\t\tVertices: *");
            reveal_strlit("\t\tVertices: *");
            reveal_strlit("\tGeometry: 1000000, \"Geometry::mesh\", \"Mesh\" {");
            assert("\tGeometry: 1000000, \"Geometry::mesh\", \"Mesh\" {\n\t\tVertices: *"@ =~= "\tGeometry: 1000000, \"Geometry::mesh\", \"Mesh\" {"@ + seq!['\n'] + "\t\tVertices: *"@);
        }
        assert(!"\tGeometry: 1000000, \"Geometry::mesh\", \"Mesh\" {"@.contains('\n')) by {
            reveal_strlit("\tGeometry: 1000000, \"Geometry::mesh\", \"Mesh\" {");
        }
        reading::scan_line(s0, nothing, "\tGeometry: 1000000, \"Geometry::mesh\", \"Mesh\" {"@, "\t\tVertices: *"@, step);
        assert(nothing + "\tGeometry: 1000000, \"Geometry::mesh\", \"Mesh\" {"@ =~= "\tGeometry: 1000000, \"Geometry::mesh\", \"Mesh\" {"@);
        assert(!"\t\tVertices: *"@.contains('\n')) by {
            reveal_strlit("\t\tVertices: *");
        }
        reading::scan_plain(s1, nothing, "\t\tVertices: *"@, step);
        assert(nothing + "\t\tVertices: *"@ =~= "\t\tVertices: *"@);
    }
    let t2 = t1 + text::decimal(mesh.vertices@.len() * 3);
    assert(scanned(t2) == (s1, "\t\tVertices: *"@ + text::decimal(mesh.vertices@.len() * 3))) by {
        reading::scan_more(t1, text::decimal(mesh.vertices@.len() * 3), unread(), step);
        reading::scan_plain(s1, "\t\tVertices: *"@, text::decimal(mesh.vertices@.len() * 3), step);
    }
    let t3 = t2 + " {\n\t\t\ta: "@;
    let s2 = with_line(s1, "\t\tVertices: *"@ + text::decimal(mesh.vertices@.len() * 3) + " {"@);
    assert(s2 == (FbxReading { name: "\t\tVertices: "@, count: text::decimal(mesh.vertices@.len() * 3) + " {"@, ..s1 })) by {
        assert(is_plain("\t\tVertices: "@)) by {
            reveal_strlit("\t\tVertices: ");
            other_is_plain("\t\tVertices: "@, 2, 'V');
        }
        assert("\t\tVertices: *"@ + text::decimal(mesh.vertices@.len() * 3) + " {"@ == "\t\tVertices: "@ + seq!['*'] + (text::decimal(mesh.vertices@.len() * 3) + " {"@)) by {
            reveal_strlit("\t\tVertices: *");
            reveal_strlit("\t\tVertices: ");
            assert("\t\tVertices: *"@ =~= "\t\tVertices: "@ + seq!['*']);
            assert("\t\tVertices: "@ + seq!['*'] + text::decimal(mesh.vertices@.len() * 3) + " {"@ =~= "\t\tVertices: "@ + seq!['*'] + (text::decimal(mesh.vertices@.len() * 3) + " {"@));
        }
        assert(!(text::decimal(mesh.vertices@.len() * 3) + " {"@).contains('*')) by {
            reveal_strlit(" {");
            reading::decimal_lacks(mesh.vertices@.len() * 3, '*');
            reading::sum_lacks(text::decimal(mesh.vertices@.len() * 3), " {"@, '*');
        }
        name_is_noted(s1, "\t\tVertices: "@, text::decimal(mesh.vertices@.len() * 3) + " {"@);
    }
    assert(scanned(t3) == (s2, "\t\t\ta: "@)) by {
        reading::scan_more(t2, " {\n\t\t\ta: "@, unread(), step);
        assert(" {\n\t\t\ta: "@ == " {"@ + seq!['\n'] + "\t\t\ta: "@) by {
            reveal_strlit(" {\n\t\t\ta: ");
            reveal_strlit("\t\t\ta: ");
            reveal_strlit(" {");
            assert(" {\n\t\t\ta: "@ =~= " {"@ + seq!['\n'] + "\t\t\ta: "@);
        }
        assert(!" {"@.contains('\n')) by {
            reveal_strlit(" {");
        }
        reading::scan_line(s1, "\t\tVertices: *"@ + text::decimal(mesh.vertices@.len() * 3), " {"@, "\t\t\ta: "@, step);
        assert(!"\t\t\ta: "@.contains('\n')) by {
            reveal_strlit("\t\t\ta: ");
        }
        reading::scan_plain(s2, nothing, "\t\t\ta: "@, step);
        assert(nothing + "\t\t\ta: "@ =~= "\t\t\ta: "@);
    }
    let t4 = t3 + fbx::decimals_text(numbers.positions@);
    assert(scanned(t4) == (s2, "\t\t\ta: "@ + fbx::decimals_text(numbers.positions@))) by {
        reading::scan_more(t3, fbx::decimals_text(numbers.positions@), unread(), step);
        reading::scan_plain(s2, "\t\t\ta: "@, fbx::decimals_text(numbers.positions@), step);
    }
    let t5 = t4 + "\n\t\t}\n\t\tPolygonVertexIndex: *"@;
    let s3 = with_line(s2, "\t\t\ta: "@ + fbx::decimals_text(numbers.positions@));
    assert(s3 == with_values(s2, fbx::decimals_text(numbers.positions@))) by {
        list_line_is_read(s2, fbx::decimals_text(numbers.positions@));
    }
    let s4 = with_line(s3, "\t\t}"@);
    assert(s4 == s3) by {
        assert(is_plain("\t\t}"@)) by {
            reveal_strlit("\t\t}");
            other_is_plain("\t\t}"@, 2, '}');
        }
        plain_is_skipped(s3, "\t\t}"@);
    }
    assert(scanned(t5) == (s4, "\t\tPolygonVertexIndex: *"@)) by {
        reading::scan_more(t4, "\n\t\t}\n\t\tPolygonVertexIndex: *"@, unread(), step);
        assert("\n\t\t}\n\t\tPolygonVertexIndex: *"@ == nothing + seq!['\n'] + ("\t\t}"@ + seq!['\n'] + "\t\tPolygonVertexIndex: *"@)) by {
            reveal_strlit("\n\t\t}\n\t\tPolygonVertexIndex: *");
            reveal_strlit("\t\tPolygonVertexIndex: *");
            reveal_strlit("\t\t}");
            assert("\n\t\t}\n\t\tPolygonVertexIndex: *"@ =~= nothing + seq!['\n'] + ("\t\t}"@ + seq!['\n'] + "\t\tPolygonVertexIndex: *"@));
        }
        reading::scan_line(s2, "\t\t\ta: "@ + fbx::decimals_text(numbers.positions@), nothing, ("\t\t}"@ + seq!['\n'] + "\t\tPolygonVertexIndex: *"@), step);
        assert("\t\t\ta: "@ + fbx::decimals_text(numbers.positions@) + nothing =~= "\t\t\ta: "@ + fbx::decimals_text(numbers.positions@));
        assert(!"\t\t}"@.contains('\n')) by {
            reveal_strlit("\t\t}");
        }
        reading::scan_line(s3, nothing, "\t\t}"@, "\t\tPolygonVertexIndex: *"@, step);
        assert(nothing + "\t\t}"@ =~= "\t\t}"@);
        assert(!"\t\tPolygonVertexIndex: *"@.contains('\n')) by {
            reveal_strlit("\t\tPolygonVertexIndex: *");
        }
        reading::scan_plain(s4, nothing, "\t\tPolygonVertexIndex: *"@, step);
        assert(nothing + "\t\tPolygonVertexIndex: *"@ =~= "\t\tPolygonVertexIndex: *"@);
    }
    let t6 = t5 + text::decimal(mesh.indices@.len());
    assert(scanned(t6) == (s4, "\t\tPolygonVertexIndex: *"@ + text::decimal(mesh.indices@.len()))) by {
        reading::scan_more(t5, text::decimal(mesh.indices@.len()), unread(), step);
        reading::scan_plain(s4, "\t\tPolygonVertexIndex: *"@, text::decimal(mesh.indices@.len()), step);
    }
    let t7 = t6 + " {\n\t\t\ta: "@;
    let s5 = with_line(s4, "\t\tPolygonVertexIndex: *"@ + text::decimal(mesh.indices@.len()) + " {"@);
    assert(s5 == (FbxReading { name: "\t\tPolygonVertexIndex: "@, count: text::decimal(mesh.indices@.len()) + " {"@, ..s4 })) by {
        assert(is_plain("\t\tPolygonVertexIndex: "@)) by {
            reveal_strlit("\t\tPolygonVertexIndex: ");
            other_is_plain("\t\tPolygonVertexIndex: "@, 2, 'P');
        }
        assert("\t\tPolygonVertexIndex: *"@ + text::decimal(mesh.indices@.len()) + " {"@ == "\t\tPolygonVertexIndex: "@ + seq!['*'] + (text::decimal(mesh.indices@.len()) + " {"@)) by {
            reveal_strlit("\t\tPolygonVertexIndex: *");
            reveal_strlit("\t\tPolygonVertexIndex: ");
            assert("\t\tPolygonVertexIndex: *"@ =~= "\t\tPolygonVertexIndex: "@ + seq!['*']);
            assert("\t\tPolygonVertexIndex: "@ + seq!['*'] + text::decimal(mesh.indices@.len()) + " {"@ =~= "\t\tPolygonVertexIndex: "@ + seq!['*'] + (text::decimal(mesh.indices@.len()) + " {"@));
        }
        assert(!(text::decimal(mesh.indices@.len()) + " {"@).contains('*')) by {
            reveal_strlit(" {");
            reading::decimal_lacks(mesh.indices@.len(), '*');
            reading::sum_lacks(text::decimal(mesh.indices@.len()), " {"@, '*');
        }
        name_is_noted(s4, "\t\tPolygonVertexIndex: "@, text::decimal(mesh.indices@.len()) + " {"@);
    }
    assert(scanned(t7) == (s5, "\t\t\ta: "@)) by {
        reading::scan_more(t6, " {\n\t\t\ta: "@, unread(), step);
        assert(" {\n\t\t\ta: "@ == " {"@ + seq!['\n'] + "\t\t\ta: "@) by {
            reveal_strlit(" {\n\t\t\ta: ");
            reveal_strlit("\t\t\ta: ");
            reveal_strlit(" {");
            assert(" {\n\t\t\ta: "@ =~= " {"@ + seq!['\n'] + "\t\t\ta: "@);
        }
        assert(!" {"@.contains('\n')) by {
            reveal_strlit(" {");
        }
        reading::scan_line(s4, "\t\tPolygonVertexIndex: *"@ + text::decimal(mesh.indices@.len()), " {"@, "\t\t\ta: "@, step);
        assert(!"\t\t\ta: "@.contains('\n')) by {
            reveal_strlit("\t\t\ta: ");
        }
        reading::scan_plain(s5, nothing, "\t\t\ta: "@, step);
        assert(nothing + "\t\t\ta: "@ =~= "\t\t\ta: "@);
    }
    let t8 = t7 + fbx::polygon_text(mesh.indices@);
    assert(scanned(t8) == (s5, "\t\t\ta: "@ + fbx::polygon_text(mesh.indices@))) by {
        reading::scan_more(t7, fbx::polygon_text(mesh.indices@), unread(), step);
        reading::scan_plain(s5, "\t\t\ta: "@, fbx::polygon_text(mesh.indices@), step);
    }
    let t9 = t8 + "\n\t\t}\n\t\tLayerElementNormal: 0 {\n\t\t\tVersion: 101\n\t\t\tName: \"\"\n\t\t\tMappingInformationType: \"ByVertice\"\n\t\t\tReferenceInformationType: \"Direct\"\n\t\t\tNormals: *"@;
    let s6 = with_line(s5, "\t\t\ta: "@ + fbx::polygon_text(mesh.indices@));
    assert(s6 == with_values(s5, fbx::polygon_text(mesh.indices@))) by {
        list_line_is_read(s5, fbx::polygon_text(mesh.indices@));
    }
    let s7 = with_line(s6, "\t\t}"@);
    assert(s7 == s6) by {
        assert(is_plain("\t\t}"@)) by {
            reveal_strlit("\t\t}");
            other_is_plain("\t\t}"@, 2, '}');
        }
        plain_is_skipped(s6, "\t\t}"@);
    }
    let s8 = with_line(s7, "\t\tLayerElementNormal: 0 {"@);
    assert(s8 == s7) by {
        assert(is_plain("\t\tLayerElementNormal: 0 {"@)) by {
            reveal_strlit("\t\tLayerElementNormal: 0 {");
            other_is_plain("\t\tLayerElementNormal: 0 {"@, 2, 'L');
        }
        plain_is_skipped(s7, "\t\tLayerElementNormal: 0 {"@);
    }
    let s9 = with_line(s8, "\t\t\tVersion: 101"@);
    assert(s9 == s8) by {
        assert(is_plain("\t\t\tVersion: 101"@)) by {
            reveal_strlit("\t\t\tVersion: 101");
            other_is_plain("\t\t\tVersion: 101"@, 3, 'V');
        }
        plain_is_skipped(s8, "\t\t\tVersion: 101"@);
    }
    let s10 = with_line(s9, "\t\t\tName: \"\""@);
    assert(s10 == s9) by {
        assert(is_plain("\t\t\tName: \"\""@)) by {
            reveal(is_plain);
            reveal_strlit("\t\t\tName: \"\"");
            reveal_strlit("\tC: \"OO\",");
            assert("\t\t\tName: \"\""@[1] != "\tC: \"OO\","@[1]);
            reveal_strlit("\t\t\ta: ");
            assert("\t\t\tName: \"\""@[3] != "\t\t\ta: "@[3]);
            reveal_strlit("\t\t\t\ta: ");
            assert("\t\t\tName: \"\""@[3] != "\t\t\t\ta: "@[3]);
            reveal_strlit("\tGeometry: ");
            assert("\t\t\tName: \"\""@[1] != "\tGeometry: "@[1]);
            reveal_strlit("\tModel: ");
            assert("\t\t\tName: \"\""@[1] != "\tModel: "@[1]);
            reveal_strlit("\tDeformer: ");
            assert("\t\t\tName: \"\""@[1] != "\tDeformer: "@[1]);
            reveal_strlit("\tPose: ");
            assert("\t\t\tName: \"\""@[1] != "\tPose: "@[1]);
            reveal_strlit("\t\t\tNode: ");
            assert("\t\t\tName: \"\""@[4] != "\t\t\tNode: "@[4]);
            reveal_strlit("\t\t\tP: ");
            assert("\t\t\tName: \"\""@[3] != "\t\t\tP: "@[3]);
            reveal_strlit("\tCount: ");
            assert("\t\t\tName: \"\""@[1] != "\tCount: "@[1]);
            reveal_strlit("\tObjectType: ");
            assert("\t\t\tName: \"\""@[1] != "\tObjectType: "@[1]);
            reveal_strlit("\t\tNbPoseNodes: ");
            assert("\t\t\tName: \"\""@[2] != "\t\tNbPoseNodes: "@[2]);
            reveal_strlit("\t;");
            assert("\t\t\tName: \"\""@[1] != "\t;"@[1]);
        }
        plain_is_skipped(s9, "\t\t\tName: \"\""@);
    }
    let s11 = with_line(s10, "\t\t\tMappingInformationType: \"ByVertice\""@);
    assert(s11 == s10) by {
        assert(is_plain("\t\t\tMappingInformationType: \"ByVertice\""@)) by {
            reveal_strlit("\t\t\tMappingInformationType: \"ByVertice\"");
            other_is_plain("\t\t\tMappingInformationType: \"ByVertice\""@, 3, 'M');
        }
        plain_is_skipped(s10, "\t\t\tMappingInformationType: \"ByVertice\""@);
    }
    let s12 = with_line(s11, "\t\t\tReferenceInformationType: \"Direct\""@);
    assert(s12 == s11) by {
        assert(is_plain("\t\t\tReferenceInformationType: \"Direct\""@)) by {
            reveal_strlit("\t\t\tReferenceInformationType: \"Direct\"");
            other_is_plain("\t\t\tReferenceInformationType: \"Direct\""@, 3, 'R');
        }
        plain_is_skipped(s11, "\t\t\tReferenceInformationType: \"Direct\""@);
    }
    assert(scanned(t9) == (s12, "\t\t\tNormals: *"@)) by {
        reading::scan_more(t8, "\n\t\t}\n\t\tLayerElementNormal: 0 {\n\t\t\tVersion: 101\n\t\t\tName: \"\"\n\t\t\tMappingInformationType: \"ByVertice\"\n\t\t\tReferenceInformationType: \"Direct\"\n\t\t\tNormals: *"@, unread(), step);
        assert("\n\t\t}\n\t\tLayerElementNormal: 0 {\n\t\t\tVersion: 101\n\t\t\tName: \"\"\n\t\t\tMappingInformationType: \"ByVertice\"\n\t\t\tReferenceInformationType: \"Direct\"\n\t\t\tNormals: *"@ == nothing + seq!['\n'] + ("\t\t}"@ + seq!['\n'] + ("\t\tLayerElementNormal: 0 {"@ + seq!['\n'] + ("\t\t\tVersion: 101"@ + seq!['\n'] + ("\t\t\tName: \"\""@ + seq!['\n'] + ("\t\t\tMappingInformationType: \"ByVertice\""@ + seq!['\n'] + ("\t\t\tReferenceInformationType: \"Direct\""@ + seq!['\n'] + "\t\t\tNormals: *"@))))))) by {
            reveal_strlit("\n\t\t}\n\t\tLayerElementNormal: 0 {\n\t\t\tVersion: 101\n\t\t\tName: \"\"\n\t\t\tMappingInformationType: \"ByVertice\"\n\t\t\tReferenceInformationType: \"Direct\"\n\t\t\tNormals: *");
            reveal_strlit("\t\t\tMappingInformationType: \"ByVertice\"");
            reveal_strlit("\t\t\tName: \"\"");
            reveal_strlit("\t\t\tNormals: *");
            reveal_strlit("\t\t\tReferenceInformationType: \"Direct\"");
            reveal_strlit("\t\t\tVersion: 101");
            reveal_strlit("\t\tLayerElementNormal: 0 {");
            reveal_strlit("\t\t}");
            assert("\n\t\t}\n\t\tLayerElementNormal: 0 {\n\t\t\tVersion: 101\n\t\t\tName: \"\"\n\t\t\tMappingInformationType: \"ByVertice\"\n\t\t\tReferenceInformationType: \"Direct\"\n\t\t\tNormals: *"@ =~= nothing + seq!['\n'] + ("\t\t}"@ + seq!['\n'] + ("\t\tLayerElementNormal: 0 {"@ + seq!['\n'] + ("\t\t\tVersion: 101"@ + seq!['\n'] + ("\t\t\tName: \"\""@ + seq!['\n'] + ("\t\t\tMappingInformationType: \"ByVertice\""@ + seq!['\n'] + ("\t\t\tReferenceInformationType: \"Direct\""@ + seq!['\n'] + "\t\t\tNormals: *"@)))))));
        }
        reading::scan_line(s5, "\t\t\ta: "@ + fbx::polygon_text(mesh.indices@), nothing, ("\t\t}"@ + seq!['\n'] + ("\t\tLayerElementNormal: 0 {"@ + seq!['\n'] + ("\t\t\tVersion: 101"@ + seq!['\n'] + ("\t\t\tName: \"\""@ + seq!['\n'] + ("\t\t\tMappingInformationType: \"ByVertice\""@ + seq!['\n'] + ("\t\t\tReferenceInformationType: \"Direct\""@ + seq!['\n'] + "\t\t\tNormals: *"@)))))), step);
        assert("\t\t\ta: "@ + fbx::polygon_text(mesh.indices@) + nothing =~= "\t\t\ta: "@ + fbx::polygon_text(mesh.indices@));
        assert(!"\t\t}"@.contains('\n')) by {
            reveal_strlit("\t\t}");
        }
        reading::scan_line(s6, nothing, "\t\t}"@, ("\t\tLayerElementNormal: 0 {"@ + seq!['\n'] + ("\t\t\tVersion: 101"@ + seq!['\n'] + ("\t\t\tName: \"\""@ + seq!['\n'] + ("\t\t\tMappingInformationType: \"ByVertice\""@ + seq!['\n'] + ("\t\t\tReferenceInformationType: \"Direct\""@ + seq!['\n'] + "\t\t\tNormals: *"@))))), step);
        assert(nothing + "\t\t}"@ =~= "\t\t}"@);
        assert(!"\t\tLayerElementNormal: 0 {"@.contains('\n')) by {
            reveal_strlit("\t\tLayerElementNormal: 0 {");
        }
        reading::scan_line(s7, nothing, "\t\tLayerElementNormal: 0 {"@, ("\t\t\tVersion: 101"@ + seq!['\n'] + ("\t\t\tName: \"\""@ + seq!['\n'] + ("\t\t\tMappingInformationType: \"ByVertice\""@ + seq!['\n'] + ("\t\t\tReferenceInformationType: \"Direct\""@ + seq!['\n'] + "\t\t\tNormals: *"@)))), step);
        assert(nothing + "\t\tLayerElementNormal: 0 {"@ =~= "\t\tLayerElementNormal: 0 {"@);
        assert(!"\t\t\tVersion: 101"@.contains('\n')) by {
            reveal_strlit("\t\t\tVersion: 101");
        }
        reading::scan_line(s8, nothing, "\t\t\tVersion: 101"@, ("\t\t\tName: \"\""@ + seq!['\n'] + ("\t\t\tMappingInformationType: \"ByVertice\""@ + seq!['\n'] + ("\t\t\tReferenceInformationType: \"Direct\""@ + seq!['\n'] + "\t\t\tNormals: *"@))), step);
        assert(nothing + "\t\t\tVersion: 101"@ =~= "\t\t\tVersion: 101"@);
        assert(!"\t\t\tName: \"\""@.contains('\n')) by {
            reveal_strlit("\t\t\tName: \"\"");
        }
        reading::scan_line(s9, nothing, "\t\t\tName: \"\""@, ("\t\t\tMappingInformationType: \"ByVertice\""@ + seq!['\n'] + ("\t\t\tReferenceInformationType: \"Direct\""@ + seq!['\n'] + "\t\t\tNormals: *"@)), step);
        assert(nothing + "\t\t\tName: \"\""@ =~= "\t\t\tName: \"\""@);
        assert(!"\t\t\tMappingInformationType: \"ByVertice\""@.contains('\n')) by {
            reveal_strlit("\t\t\tMappingInformationType: \"ByVertice\"");
        }
        reading::scan_line(s10, nothing, "\t\t\tMappingInformationType: \"ByVertice\""@, ("\t\t\tReferenceInformationType: \"Direct\""@ + seq!['\n'] + "\t\t\tNormals: *"@), step);
        assert(nothing + "\t\t\tMappingInformationType: \"ByVertice\""@ =~= "\t\t\tMappingInformationType: \"ByVertice\""@);
        assert(!"\t\t\tReferenceInformationType: \"Direct\""@.contains('\n')) by {
            reveal_strlit("\t\t\tReferenceInformationType: \"Direct\"");
        }
        reading::scan_line(s11, nothing, "\t\t\tReferenceInformationType: \"Direct\""@, "\t\t\tNormals: *"@, step);
        assert(nothing + "\t\t\tReferenceInformationType: \"Direct\""@ =~= "\t\t\tReferenceInformationType: \"Direct\""@);
        assert(!"\t\t\tNormals: *"@.contains('\n')) by {
            reveal_strlit("\t\t\tNormals: *");
        }
        reading::scan_plain(s12, nothing, "\t\t\tNormals: *"@, step);
        assert(nothing + "\t\t\tNormals: *"@ =~= "\t\t\tNormals: *"@);
    }
    let t10 = t9 + text::decimal(mesh.vertices@.len() * 3);
    assert(scanned(t10) == (s12, "\t\t\tNormals: *"@ + text::decimal(mesh.vertices@.len() * 3))) by {
        reading::scan_more(t9, text::decimal(mesh.vertices@.len() * 3), unread(), step);
        reading::scan_plain(s12, "\t\t\tNormals: *"@, text::decimal(mesh.vertices@.len() * 3), step);
    }
    let t11 = t10 + " {\n\t\t\t\ta: "@;
    let s13 = with_line(s12, "\t\t\tNormals: *"@ + text::decimal(mesh.vertices@.len() * 3) + " {"@);
    assert(s13 == (FbxReading { name: "\t\t\tNormals: "@, count: text::decimal(mesh.vertices@.len() * 3) + " {"@, ..s12 })) by {
        assert(is_plain("\t\t\tNormals: "@)) by {
            reveal(is_plain);
            reveal_strlit("\t\t\tNormals: ");
            reveal_strlit("\tC: \"OO\",");
            assert("\t\t\tNormals: "@[1] != "\tC: \"OO\","@[1]);
            reveal_strlit("\t\t\ta: ");
            assert("\t\t\tNormals: "@[3] != "\t\t\ta: "@[3]);
            reveal_strlit("\t\t\t\ta: ");
            assert("\t\t\tNormals: "@[3] != "\t\t\t\ta: "@[3]);
            reveal_strlit("\tGeometry: ");
            assert("\t\t\tNormals: "@[1] != "\tGeometry: "@[1]);
            reveal_strlit("\tModel: ");
            assert("\t\t\tNormals: "@[1] != "\tModel: "@[1]);
            reveal_strlit("\tDeformer: ");
            assert("\t\t\tNormals: "@[1] != "\tDeformer: "@[1]);
            reveal_strlit("\tPose: ");
            assert("\t\t\tNormals: "@[1] != "\tPose: "@[1]);
            reveal_strlit("\t\t\tNode: ");
            assert("\t\t\tNormals: "@[5] != "\t\t\tNode: "@[5]);
            reveal_strlit("\t\t\tP: ");
            assert("\t\t\tNormals: "@[3] != "\t\t\tP: "@[3]);
            reveal_strlit("\tCount: ");
            assert("\t\t\tNormals: "@[1] != "\tCount: "@[1]);
            reveal_strlit("\tObjectType: ");
            assert("\t\t\tNormals: "@[1] != "\tObjectType: "@[1]);
            reveal_strlit("\t\tNbPoseNodes: ");
            assert("\t\t\tNormals: "@[2] != "\t\tNbPoseNodes: "@[2]);
            reveal_strlit("\t;");
            assert("\t\t\tNormals: "@[1] != "\t;"@[1]);
        }
        assert("\t\t\tNormals: *"@ + text::decimal(mesh.vertices@.len() * 3) + " {"@ == "\t\t\tNormals: "@ + seq!['*'] + (text::decimal(mesh.vertices@.len() * 3) + " {"@)) by {
            reveal_strlit("\t\t\tNormals: *");
            reveal_strlit("\t\t\tNormals: ");
            assert("\t\t\tNormals: *"@ =~= "\t\t\tNormals: "@ + seq!['*']);
            assert("\t\t\tNormals: "@ + seq!['*'] + text::decimal(mesh.vertices@.len() * 3) + " {"@ =~= "\t\t\tNormals: "@ + seq!['*'] + (text::decimal(mesh.vertices@.len() * 3) + " {"@));
        }
        assert(!(text::decimal(mesh.vertices@.len() * 3) + " {"@).contains('*')) by {
            reveal_strlit(" {");
            reading::decimal_lacks(mesh.vertices@.len() * 3, '*');
            reading::sum_lacks(text::decimal(mesh.vertices@.len() * 3), " {"@, '*');
        }
        name_is_noted(s12, "\t\t\tNormals: "@, text::decimal(mesh.vertices@.len() * 3) + " {"@);
    }
    assert(scanned(t11) == (s13, "\t\t\t\ta: "@)) by {
        reading::scan_more(t10, " {\n\t\t\t\ta: "@, unread(), step);
        assert(" {\n\t\t\t\ta: "@ == " {"@ + seq!['\n'] + "\t\t\t\ta: "@) by {
            reveal_strlit(" {\n\t\t\t\ta: ");
            reveal_strlit("\t\t\t\ta: ");
            reveal_strlit(" {");
            assert(" {\n\t\t\t\ta: "@ =~= " {"@ + seq!['\n'] + "\t\t\t\ta: "@);
        }
        assert(!" {"@.contains('\n')) by {
            reveal_strlit(" {");
        }
        reading::scan_line(s12, "\t\t\tNormals: *"@ + text::decimal(mesh.vertices@.len() * 3), " {"@, "\t\t\t\ta: "@, step);
        assert(!"\t\t\t\ta: "@.contains('\n')) by {
            reveal_strlit("\t\t\t\ta: ");
        }
        reading::scan_plain(s13, nothing, "\t\t\t\ta: "@, step);
        assert(nothing + "\t\t\t\ta: "@ =~= "\t\t\t\ta: "@);
    }
    let t12 = t11 + fbx::decimals_text(numbers.normals@);
    assert(scanned(t12) == (s13, "\t\t\t\ta: "@ + fbx::decimals_text(numbers.normals@))) by {
        reading::scan_more(t11, fbx::decimals_text(numbers.normals@), unread(), step);
        reading::scan_plain(s13, "\t\t\t\ta: "@, fbx::decimals_text(numbers.normals@), step);
    }
    let t13 = t12 + "\n\t\t\t}\n\t\t}\n\t\tLayerElementUV: 0 {\n\t\t\tVersion: 101\n\t\t\tName: \"map1\"\n\t\t\tMappingInformationType: \"ByVertice\"\n\t\t\tReferenceInformationType: \"Direct\"\n\t\t\tUV: *"@;
    let s14 = with_line(s13, "\t\t\t\ta: "@ + fbx::decimals_text(numbers.normals@));
    assert(s14 == with_values(s13, fbx::decimals_text(numbers.normals@))) by {
        deep_list_line_is_read(s13, fbx::decimals_text(numbers.normals@));
    }
    let s15 = with_line(s14, "\t\t\t}"@);
    assert(s15 == s14) by {
        assert(is_plain("\t\t\t}"@)) by {
            reveal_strlit("\t\t\t}");
            other_is_plain("\t\t\t}"@, 3, '}');
        }
        plain_is_skipped(s14, "\t\t\t}"@);
    }
    let s16 = with_line(s15, "\t\t}"@);
    assert(s16 == s15) by {
        assert(is_plain("\t\t}"@)) by {
            reveal_strlit("\t\t}");
            other_is_plain("\t\t}"@, 2, '}');
        }
        plain_is_skipped(s15, "\t\t}"@);
    }
    let s17 = with_line(s16, "\t\tLayerElementUV: 0 {"@);
    assert(s17 == s16) by {
        assert(is_plain("\t\tLayerElementUV: 0 {"@)) by {
            reveal_strlit("\t\tLayerElementUV: 0 {");
            other_is_plain("\t\tLayerElementUV: 0 {"@, 2, 'L');
        }
        plain_is_skipped(s16, "\t\tLayerElementUV: 0 {"@);
    }
    let s18 = with_line(s17, "\t\t\tVersion: 101"@);
    assert(s18 == s17) by {
        assert(is_plain("\t\t\tVersion: 101"@)) by {
            reveal_strlit("\t\t\tVersion: 101");
            other_is_plain("\t\t\tVersion: 101"@, 3, 'V');
        }
        plain_is_skipped(s17, "\t\t\tVersion: 101"@);
    }
    let s19 = with_line(s18, "\t\t\tName: \"map1\""@);
    assert(s19 == s18) by {
        assert(is_plain("\t\t\tName: \"map1\""@)) by {
            reveal(is_plain);
            reveal_strlit("\t\t\tName: \"map1\"");
            reveal_strlit("\tC: \"OO\",");
            assert("\t\t\tName: \"map1\""@[1] != "\tC: \"OO\","@[1]);
            reveal_strlit("\t\t\ta: ");
            assert("\t\t\tName: \"map1\""@[3] != "\t\t\ta: "@[3]);
            reveal_strlit("\t\t\t\ta: ");
            assert("\t\t\tName: \"map1\""@[3] != "\t\t\t\ta: "@[3]);
            reveal_strlit("\tGeometry: ");
            assert("\t\t\tName: \"map1\""@[1] != "\tGeometry: "@[1]);
            reveal_strlit("\tModel: ");
            assert("\t\t\tName: \"map1\""@[1] != "\tModel: "@[1]);
            reveal_strlit("\tDeformer: ");
            assert("\t\t\tName: \"map1\""@[1] != "\tDeformer: "@[1]);
            reveal_strlit("\tPose: ");
            assert("\t\t\tName: \"map1\""@[1] != "\tPose: "@[1]);
            reveal_strlit("\t\t\tNode: ");
            assert("\t\t\tName: \"map1\""@[4] != "\t\t\tNode: "@[4]);
            reveal_strlit("\t\t\tP: ");
            assert("\t\t\tName: \"map1\""@[3] != "\t\t\tP: "@[3]);
            reveal_strlit("\tCount: ");
            assert("\t\t\tName: \"map1\""@[1] != "\tCount: "@[1]);
            reveal_strlit("\tObjectType: ");
            assert("\t\t\tName: \"map1\""@[1] != "\tObjectType: "@[1]);
            reveal_strlit("\t\tNbPoseNodes: ");
            assert("\t\t\tName: \"map1\""@[2] != "\t\tNbPoseNodes: "@[2]);
            reveal_strlit("\t;");
            assert("\t\t\tName: \"map1\""@[1] != "\t;"@[1]);
        }
        plain_is_skipped(s18, "\t\t\tName: \"map1\""@);
    }
    let s20 = with_line(s19, "\t\t\tMappingInformationType: \"ByVertice\""@);
    assert(s20 == s19) by {
        assert(is_plain("\t\t\tMappingInformationType: \"ByVertice\""@)) by {
            reveal_strlit("\t\t\tMappingInformationType: \"ByVertice\"");
            other_is_plain("\t\t\tMappingInformationType: \"ByVertice\""@, 3, 'M');
        }
        plain_is_skipped(s19, "\t\t\tMappingInformationType: \"ByVertice\""@);
    }
    let s21 = with_line(s20, "\t\t\tReferenceInformationType: \"Direct\""@);
    assert(s21 == s20) by {
        assert(is_plain("\t\t\tReferenceInformationType: \"Direct\""@)) by {
            reveal_strlit("\t\t\tReferenceInformationType: \"Direct\"");
            other_is_plain("\t\t\tReferenceInformationType: \"Direct\""@, 3, 'R');
        }
        plain_is_skipped(s20, "\t\t\tReferenceInformationType: \"Direct\""@);
    }
    assert(scanned(t13) == (s21, "\t\t\tUV: *"@)) by {
        reading::scan_more(t12, "\n\t\t\t}\n\t\t}\n\t\tLayerElementUV: 0 {\n\t\t\tVersion: 101\n\t\t\tName: \"map1\"\n\t\t\tMappingInformationType: \"ByVertice\"\n\t\t\tReferenceInformationType: \"Direct\"\n\t\t\tUV: *"@, unread(), step);
        assert("\n\t\t\t}\n\t\t}\n\t\tLayerElementUV: 0 {\n\t\t\tVersion: 101\n\t\t\tName: \"map1\"\n\t\t\tMappingInformationType: \"ByVertice\"\n\t\t\tReferenceInformationType: \"Direct\"\n\t\t\tUV: *"@ == nothing + seq!['\n'] + ("\t\t\t}"@ + seq!['\n'] + ("\t\t}"@ + seq!['\n'] + ("\t\tLayerElementUV: 0 {"@ + seq!['\n'] + ("\t\t\tVersion: 101"@ + seq!['\n'] + ("\t\t\tName: \"map1\""@ + seq!['\n'] + ("\t\t\tMappingInformationType: \"ByVertice\""@ + seq!['\n'] + ("\t\t\tReferenceInformationType: \"Direct\""@ + seq!['\n'] + "\t\t\tUV: *"@)))))))) by {
            reveal_strlit("\n\t\t\t}\n\t\t}\n\t\tLayerElementUV: 0 {\n\t\t\tVersion: 101\n\t\t\tName: \"map1\"\n\t\t\tMappingInformationType: \"ByVertice\"\n\t\t\tReferenceInformationType: \"Direct\"\n\t\t\tUV: *");
            reveal_strlit("\t\t\tMappingInformationType: \"ByVertice\"");
            reveal_strlit("\t\t\tName: \"map1\"");
            reveal_strlit("\t\t\tReferenceInformationType: \"Direct\"");
            reveal_strlit("\t\t\tUV: *");
            reveal_strlit("\t\t\tVersion: 101");
            reveal_strlit("\t\t\t}");
            reveal_strlit("\t\tLayerElementUV: 0 {");
            reveal_strlit("\t\t}");
            assert("\n\t\t\t}\n\t\t}\n\t\tLayerElementUV: 0 {\n\t\t\tVersion: 101\n\t\t\tName: \"map1\"\n\t\t\tMappingInformationType: \"ByVertice\"\n\t\t\tReferenceInformationType: \"Direct\"\n\t\t\tUV: *"@ =~= nothing + seq!['\n'] + ("\t\t\t}"@ + seq!['\n'] + ("\t\t}"@ + seq!['\n'] + ("\t\tLayerElementUV: 0 {"@ + seq!['\n'] + ("\t\t\tVersion: 101"@ + seq!['\n'] + ("\t\t\tName: \"map1\""@ + seq!['\n'] + ("\t\t\tMappingInformationType: \"ByVertice\""@ + seq!['\n'] + ("\t\t\tReferenceInformationType: \"Direct\""@ + seq!['\n'] + "\t\t\tUV: *"@))))))));
        }
        reading::scan_line(s13, "\t\t\t\ta: "@ + fbx::decimals_text(numbers.normals@), nothing, ("\t\t\t}"@ + seq!['\n'] + ("\t\t}"@ + seq!['\n'] + ("\t\tLayerElementUV: 0 {"@ + seq!['\n'] + ("\t\t\tVersion: 101"@ + seq!['\n'] + ("\t\t\tName: \"map1\""@ + seq!['\n'] + ("\t\t\tMappingInformationType: \"ByVertice\""@ + seq!['\n'] + ("\t\t\tReferenceInformationType: \"Direct\""@ + seq!['\n'] + "\t\t\tUV: *"@))))))), step);
        assert("\t\t\t\ta: "@ + fbx::decimals_text(numbers.normals@) + nothing =~= "\t\t\t\ta: "@ + fbx::decimals_text(numbers.normals@));
        assert(!"\t\t\t}"@.contains('\n')) by {
            reveal_strlit("\t\t\t}");
        }
        reading::scan_line(s14, nothing, "\t\t\t}"@, ("\t\t}"@ + seq!['\n'] + ("\t\tLayerElementUV: 0 {"@ + seq!['\n'] + ("\t\t\tVersion: 101"@ + seq!['\n'] + ("\t\t\tName: \"map1\""@ + seq!['\n'] + ("\t\t\tMappingInformationType: \"ByVertice\""@ + seq!['\n'] + ("\t\t\tReferenceInformationType: \"Direct\""@ + seq!['\n'] + "\t\t\tUV: *"@)))))), step);
        assert(nothing + "\t\t\t}"@ =~= "\t\t\t}"@);
        assert(!"\t\t}"@.contains('\n')) by {
            reveal_strlit("\t\t}");
        }
        reading::scan_line(s15, nothing, "\t\t}"@, ("\t\tLayerElementUV: 0 {"@ + seq!['\n'] + ("\t\t\tVersion: 101"@ + seq!['\n'] + ("\t\t\tName: \"map1\""@ + seq!['\n'] + ("\t\t\tMappingInformationType: \"ByVertice\""@ + seq!['\n'] + ("\t\t\tReferenceInformationType: \"Direct\""@ + seq!['\n'] + "\t\t\tUV: *"@))))), step);
        assert(nothing + "\t\t}"@ =~= "\t\t}"@);
        assert(!"\t\tLayerElementUV: 0 {"@.contains('\n')) by {
            reveal_strlit("\t\tLayerElementUV: 0 {");
        }
        reading::scan_line(s16, nothing, "\t\tLayerElementUV: 0 {"@, ("\t\t\tVersion: 101"@ + seq!['\n'] + ("\t\t\tName: \"map1\""@ + seq!['\n'] + ("\t\t\tMappingInformationType: \"ByVertice\""@ + seq!['\n'] + ("\t\t\tReferenceInformationType: \"Direct\""@ + seq!['\n'] + "\t\t\tUV: *"@)))), step);
        assert(nothing + "\t\tLayerElementUV: 0 {"@ =~= "\t\tLayerElementUV: 0 {"@);
        assert(!"\t\t\tVersion: 101"@.contains('\n')) by {
            reveal_strlit("\t\t\tVersion: 101");
        }
        reading::scan_line(s17, nothing, "\t\t\tVersion: 101"@, ("\t\t\tName: \"map1\""@ + seq!['\n'] + ("\t\t\tMappingInformationType: \"ByVertice\""@ + seq!['\n'] + ("\t\t\tReferenceInformationType: \"Direct\""@ + seq!['\n'] + "\t\t\tUV: *"@))), step);
        assert(nothing + "\t\t\tVersion: 101"@ =~= "\t\t\tVersion: 101"@);
        assert(!"\t\t\tName: \"map1\""@.contains('\n')) by {
            reveal_strlit("\t\t\tName: \"map1\"");
        }
        reading::scan_line(s18, nothing, "\t\t\tName: \"map1\""@, ("\t\t\tMappingInformationType: \"ByVertice\""@ + seq!['\n'] + ("\t\t\tReferenceInformationType: \"Direct\""@ + seq!['\n'] + "\t\t\tUV: *"@)), step);
        assert(nothing + "\t\t\tName: \"map1\""@ =~= "\t\t\tName: \"map1\""@);
        assert(!"\t\t\tMappingInformationType: \"ByVertice\""@.contains('\n')) by {
            reveal_strlit("\t\t\tMappingInformationType: \"ByVertice\"");
        }
        reading::scan_line(s19, nothing, "\t\t\tMappingInformationType: \"ByVertice\""@, ("\t\t\tReferenceInformationType: \"Direct\""@ + seq!['\n'] + "\t\t\tUV: *"@), step);
        assert(nothing + "\t\t\tMappingInformationType: \"ByVertice\""@ =~= "\t\t\tMappingInformationType: \"ByVertice\""@);
        assert(!"\t\t\tReferenceInformationType: \"Direct\""@.contains('\n')) by {
            reveal_strlit("\t\t\tReferenceInformationType: \"Direct\"");
        }
        reading::scan_line(s20, nothing, "\t\t\tReferenceInformationType: \"Direct\""@, "\t\t\tUV: *"@, step);
        assert(nothing + "\t\t\tReferenceInformationType: \"Direct\""@ =~= "\t\t\tReferenceInformationType: \"Direct\""@);
        assert(!"\t\t\tUV: *"@.contains('\n')) by {
            reveal_strlit("\t\t\tUV: *");
        }
        reading::scan_plain(s21, nothing, "\t\t\tUV: *"@, step);
        assert(nothing + "\t\t\tUV: *"@ =~= "\t\t\tUV: *"@);
    }
    let t14 = t13 + text::decimal(mesh.vertices@.len() * 2);
    assert(scanned(t14) == (s21, "\t\t\tUV: *"@ + text::decimal(mesh.vertices@.len() * 2))) by {
        reading::scan_more(t13, text::decimal(mesh.vertices@.len() * 2), unread(), step);
        reading::scan_plain(s21, "\t\t\tUV: *"@, text::decimal(mesh.vertices@.len() * 2), step);
    }
    let t15 = t14 + " {\n\t\t\t\ta: "@;
    let s22 = with_line(s21, "\t\t\tUV: *"@ + text::decimal(mesh.vertices@.len() * 2) + " {"@);
    assert(s22 == (FbxReading { name: "\t\t\tUV: "@, count: text::decimal(mesh.vertices@.len() * 2) + " {"@, ..s21 })) by {
        assert(is_plain("\t\t\tUV: "@)) by {
            reveal_strlit("\t\t\tUV: ");
            other_is_plain("\t\t\tUV: "@, 3, 'U');
        }
        assert("\t\t\tUV: *"@ + text::decimal(mesh.vertices@.len() * 2) + " {"@ == "\t\t\tUV: "@ + seq!['*'] + (text::decimal(mesh.vertices@.len() * 2) + " {"@)) by {
            reveal_strlit("\t\t\tUV: *");
            reveal_strlit("\t\t\tUV: ");
            assert("\t\t\tUV: *"@ =~= "\t\t\tUV: "@ + seq!['*']);
            assert("\t\t\tUV: "@ + seq!['*'] + text::decimal(mesh.vertices@.len() * 2) + " {"@ =~= "\t\t\tUV: "@ + seq!['*'] + (text::decimal(mesh.vertices@.len() * 2) + " {"@));
        }
        assert(!(text::decimal(mesh.vertices@.len() * 2) + " {"@).contains('*')) by {
            reveal_strlit(" {");
            reading::decimal_lacks(mesh.vertices@.len() * 2, '*');
            reading::sum_lacks(text::decimal(mesh.vertices@.len() * 2), " {"@, '*');
        }
        name_is_noted(s21, "\t\t\tUV: "@, text::decimal(mesh.vertices@.len() * 2) + " {"@);
    }
    assert(scanned(t15) == (s22, "\t\t\t\ta: "@)) by {
        reading::scan_more(t14, " {\n\t\t\t\ta: "@, unread(), step);
        assert(" {\n\t\t\t\ta: "@ == " {"@ + seq!['\n'] + "\t\t\t\ta: "@) by {
            reveal_strlit(" {\n\t\t\t\ta: ");
            reveal_strlit("\t\t\t\ta: ");
            reveal_strlit(" {");
            assert(" {\n\t\t\t\ta: "@ =~= " {"@ + seq!['\n'] + "\t\t\t\ta: "@);
        }
        assert(!" {"@.contains('\n')) by {
            reveal_strlit(" {");
        }
        reading::scan_line(s21, "\t\t\tUV: *"@ + text::decimal(mesh.vertices@.len() * 2), " {"@, "\t\t\t\ta: "@, step);
        assert(!"\t\t\t\ta: "@.contains('\n')) by {
            reveal_strlit("\t\t\t\ta: ");
        }
        reading::scan_plain(s22, nothing, "\t\t\t\ta: "@, step);
        assert(nothing + "\t\t\t\ta: "@ =~= "\t\t\t\ta: "@);
    }
    let t16 = t15 + fbx::decimals_text(numbers.uvs@);
    assert(scanned(t16) == (s22, "\t\t\t\ta: "@ + fbx::decimals_text(numbers.uvs@))) by {
        reading::scan_more(t15, fbx::decimals_text(numbers.uvs@), unread(), step);
        reading::scan_plain(s22, "\t\t\t\ta: "@, fbx::decimals_text(numbers.uvs@), step);
    }
    let t17 = t16 + "\n\t\t\t}\n\t\t}\n\t\tLayer: 0 {\n\t\t\tVersion: 100\n\t\t\tLayerElement:  { Type: \"LayerElementNormal\" TypedIndex: 0 }\n\t\t\tLayerElement:  { Type: \"LayerElementUV\" TypedIndex: 0 }\n\t\t}\n\t}\n"@;
    let s23 = with_line(s22, "\t\t\t\ta: "@ + fbx::decimals_text(numbers.uvs@));
    assert(s23 == with_values(s22, fbx::decimals_text(numbers.uvs@))) by {
        deep_list_line_is_read(s22, fbx::decimals_text(numbers.uvs@));
    }
    let s24 = with_line(s23, "\t\t\t}"@);
    assert(s24 == s23) by {
        assert(is_plain("\t\t\t}"@)) by {
            reveal_strlit("\t\t\t}");
            other_is_plain("\t\t\t}"@, 3, '}');
        }
        plain_is_skipped(s23, "\t\t\t}"@);
    }
    let s25 = with_line(s24, "\t\t}"@);
    assert(s25 == s24) by {
        assert(is_plain("\t\t}"@)) by {
            reveal_strlit("\t\t}");
            other_is_plain("\t\t}"@, 2, '}');
        }
        plain_is_skipped(s24, "\t\t}"@);
    }
    let s26 = with_line(s25, "\t\tLayer: 0 {"@);
    assert(s26 == s25) by {
        assert(is_plain("\t\tLayer: 0 {"@)) by {
            reveal_strlit("\t\tLayer: 0 {");
            other_is_plain("\t\tLayer: 0 {"@, 2, 'L');
        }
        plain_is_skipped(s25, "\t\tLayer: 0 {"@);
    }
    let s27 = with_line(s26, "\t\t\tVersion: 100"@);
    assert(s27 == s26) by {
        assert(is_plain("\t\t\tVersion: 100"@)) by {
            reveal_strlit("\t\t\tVersion: 100");
            other_is_plain("\t\t\tVersion: 100"@, 3, 'V');
        }
        plain_is_skipped(s26, "\t\t\tVersion: 100"@);
    }
    let s28 = with_line(s27, "\t\t\tLayerElement:  { Type: \"LayerElementNormal\" TypedIndex: 0 }"@);
    assert(s28 == s27) by {
        assert(is_plain("\t\t\tLayerElement:  { Type: \"LayerElementNormal\" TypedIndex: 0 }"@)) by {
            reveal_strlit("\t\t\tLayerElement:  { Type: \"LayerElementNormal\" TypedIndex: 0 }");
            other_is_plain("\t\t\tLayerElement:  { Type: \"LayerElementNormal\" TypedIndex: 0 }"@, 3, 'L');
        }
        plain_is_skipped(s27, "\t\t\tLayerElement:  { Type: \"LayerElementNormal\" TypedIndex: 0 }"@);
    }
    let s29 = with_line(s28, "\t\t\tLayerElement:  { Type: \"LayerElementUV\" TypedIndex: 0 }"@);
    assert(s29 == s28) by {
        assert(is_plain("\t\t\tLayerElement:  { Type: \"LayerElementUV\" TypedIndex: 0 }"@)) by {
            reveal_strlit("\t\t\tLayerElement:  { Type: \"LayerElementUV\" TypedIndex: 0 }");
            other_is_plain("\t\t\tLayerElement:  { Type: \"LayerElementUV\" TypedIndex: 0 }"@, 3, 'L');
        }
        plain_is_skipped(s28, "\t\t\tLayerElement:  { Type: \"LayerElementUV\" TypedIndex: 0 }"@);
    }
    let s30 = with_line(s29, "\t\t}"@);
    assert(s30 == s29) by {
        assert(is_plain("\t\t}"@)) by {
            reveal_strlit("\t\t}");
            other_is_plain("\t\t}"@, 2, '}');
        }
        plain_is_skipped(s29, "\t\t}"@);
    }
    let s31 = with_line(s30, "\t}"@);
    assert(s31 == s30) by {
        assert(is_plain("\t}"@)) by {
            reveal_strlit("\t}");
            other_is_plain("\t}"@, 1, '}');
        }
        plain_is_skipped(s30, "\t}"@);
    }
    assert(scanned(t17) == (s31, nothing)) by {
        reading::scan_more(t16, "\n\t\t\t}\n\t\t}\n\t\tLayer: 0 {\n\t\t\tVersion: 100\n\t\t\tLayerElement:  { Type: \"LayerElementNormal\" TypedIndex: 0 }\n\t\t\tLayerElement:  { Type: \"LayerElementUV\" TypedIndex: 0 }\n\t\t}\n\t}\n"@, unread(), step);
        assert("\n\t\t\t}\n\t\t}\n\t\tLayer: 0 {\n\t\t\tVersion: 100\n\t\t\tLayerElement:  { Type: \"LayerElementNormal\" TypedIndex: 0 }\n\t\t\tLayerElement:  { Type: \"LayerElementUV\" TypedIndex: 0 }\n\t\t}\n\t}\n"@ == nothing + seq!['\n'] + ("\t\t\t}"@ + seq!['\n'] + ("\t\t}"@ + seq!['\n'] + ("\t\tLayer: 0 {"@ + seq!['\n'] + ("\t\t\tVersion: 100"@ + seq!['\n'] + ("\t\t\tLayerElement:  { Type: \"LayerElementNormal\" TypedIndex: 0 }"@ + seq!['\n'] + ("\t\t\tLayerElement:  { Type: \"LayerElementUV\" TypedIndex: 0 }"@ + seq!['\n'] + ("\t\t}"@ + seq!['\n'] + ("\t}"@ + seq!['\n'] + nothing))))))))) by {
            reveal_strlit("\n\t\t\t}\n\t\t}\n\t\tLayer: 0 {\n\t\t\tVersion: 100\n\t\t\tLayerElement:  { Type: \"LayerElementNormal\" TypedIndex: 0 }\n\t\t\tLayerElement:  { Type: \"LayerElementUV\" TypedIndex: 0 }\n\t\t}\n\t}\n");
            reveal_strlit("\t\t\tLayerElement:  { Type: \"LayerElementNormal\" TypedIndex: 0 }");
            reveal_strlit("\t\t\tLayerElement:  { Type: \"LayerElementUV\" TypedIndex: 0 }");
            reveal_strlit("\t\t\tVersion: 100");
            reveal_strlit("\t\t\t}");
            reveal_strlit("\t\tLayer: 0 {");
            reveal_strlit("\t\t}");
            reveal_strlit("\t}");
            assert("\n\t\t\t}\n\t\t}\n\t\tLayer: 0 {\n\t\t\tVersion: 100\n\t\t\tLayerElement:  { Type: \"LayerElementNormal\" TypedIndex: 0 }\n\t\t\tLayerElement:  { Type: \"LayerElementUV\" TypedIndex: 0 }\n\t\t}\n\t}\n"@ =~= nothing + seq!['\n'] + ("\t\t\t}"@ + seq!['\n'] + ("\t\t}"@ + seq!['\n'] + ("\t\tLayer: 0 {"@ + seq!['\n'] + ("\t\t\tVersion: 100"@ + seq!['\n'] + ("\t\t\tLayerElement:  { Type: \"LayerElementNormal\" TypedIndex: 0 }"@ + seq!['\n'] + ("\t\t\tLayerElement:  { Type: \"LayerElementUV\" TypedIndex: 0 }"@ + seq!['\n'] + ("\t\t}"@ + seq!['\n'] + ("\t}"@ + seq!['\n'] + nothing)))))))));
        }
        reading::scan_line(s22, "\t\t\t\ta: "@ + fbx::decimals_text(numbers.uvs@), nothing, ("\t\t\t}"@ + seq!['\n'] + ("\t\t}"@ + seq!['\n'] + ("\t\tLayer: 0 {"@ + seq!['\n'] + ("\t\t\tVersion: 100"@ + seq!['\n'] + ("\t\t\tLayerElement:  { Type: \"LayerElementNormal\" TypedIndex: 0 }"@ + seq!['\n'] + ("\t\t\tLayerElement:  { Type: \"LayerElementUV\" TypedIndex: 0 }"@ + seq!['\n'] + ("\t\t}"@ + seq!['\n'] + ("\t}"@ + seq!['\n'] + nothing)))))))), step);
        assert("\t\t\t\ta: "@ + fbx::decimals_text(numbers.uvs@) + nothing =~= "\t\t\t\ta: "@ + fbx::decimals_text(numbers.uvs@));
        assert(!"\t\t\t}"@.contains('\n')) by {
            reveal_strlit("\t\t\t}");
        }
        reading::scan_line(s23, nothing, "\t\t\t}"@, ("\t\t}"@ + seq!['\n'] + ("\t\tLayer: 0 {"@ + seq!['\n'] + ("\t\t\tVersion: 100"@ + seq!['\n'] + ("\t\t\tLayerElement:  { Type: \"LayerElementNormal\" TypedIndex: 0 }"@ + seq!['\n'] + ("\t\t\tLayerElement:  { Type: \"LayerElementUV\" TypedIndex: 0 }"@ + seq!['\n'] + ("\t\t}"@ + seq!['\n'] + ("\t}"@ + seq!['\n'] + nothing))))))), step);
        assert(nothing + "\t\t\t}"@ =~= "\t\t\t}"@);
        assert(!"\t\t}"@.contains('\n')) by {
            reveal_strlit("\t\t}");
        }
        reading::scan_line(s24, nothing, "\t\t}"@, ("\t\tLayer: 0 {"@ + seq!['\n'] + ("\t\t\tVersion: 100"@ + seq!['\n'] + ("\t\t\tLayerElement:  { Type: \"LayerElementNormal\" TypedIndex: 0 }"@ + seq!['\n'] + ("\t\t\tLayerElement:  { Type: \"LayerElementUV\" TypedIndex: 0 }"@ + seq!['\n'] + ("\t\t}"@ + seq!['\n'] + ("\t}"@ + seq!['\n'] + nothing)))))), step);
        assert(nothing + "\t\t}"@ =~= "\t\t}"@);
        assert(!"\t\tLayer: 0 {"@.contains('\n')) by {
            reveal_strlit("\t\tLayer: 0 {");
        }
        reading::scan_line(s25, nothing, "\t\tLayer: 0 {"@, ("\t\t\tVersion: 100"@ + seq!['\n'] + ("\t\t\tLayerElement:  { Type: \"LayerElementNormal\" TypedIndex: 0 }"@ + seq!['\n'] + ("\t\t\tLayerElement:  { Type: \"LayerElementUV\" TypedIndex: 0 }"@ + seq!['\n'] + ("\t\t}"@ + seq!['\n'] + ("\t}"@ + seq!['\n'] + nothing))))), step);
        assert(nothing + "\t\tLayer: 0 {"@ =~= "\t\tLayer: 0 {"@);
        assert(!"\t\t\tVersion: 100"@.contains('\n')) by {
            reveal_strlit("\t\t\tVersion: 100");
        }
        reading::scan_line(s26, nothing, "\t\t\tVersion: 100"@, ("\t\t\tLayerElement:  { Type: \"LayerElementNormal\" TypedIndex: 0 }"@ + seq!['\n'] + ("\t\t\tLayerElement:  { Type: \"LayerElementUV\" TypedIndex: 0 }"@ + seq!['\n'] + ("\t\t}"@ + seq!['\n'] + ("\t}"@ + seq!['\n'] + nothing)))), step);
        assert(nothing + "\t\t\tVersion: 100"@ =~= "\t\t\tVersion: 100"@);
        assert(!"\t\t\tLayerElement:  { Type: \"LayerElementNormal\" TypedIndex: 0 }"@.contains('\n')) by {
            reveal_strlit("\t\t\tLayerElement:  { Type: \"LayerElementNormal\" TypedIndex: 0 }");
        }
        reading::scan_line(s27, nothing, "\t\t\tLayerElement:  { Type: \"LayerElementNormal\" TypedIndex: 0 }"@, ("\t\t\tLayerElement:  { Type: \"LayerElementUV\" TypedIndex: 0 }"@ + seq!['\n'] + ("\t\t}"@ + seq!['\n'] + ("\t}"@ + seq!['\n'] + nothing))), step);
        assert(nothing + "\t\t\tLayerElement:  { Type: \"LayerElementNormal\" TypedIndex: 0 }"@ =~= "\t\t\tLayerElement:  { Type: \"LayerElementNormal\" TypedIndex: 0 }"@);
        assert(!"\t\t\tLayerElement:  { Type: \"LayerElementUV\" TypedIndex: 0 }"@.contains('\n')) by {
            reveal_strlit("\t\t\tLayerElement:  { Type: \"LayerElementUV\" TypedIndex: 0 }");
        }
        reading::scan_line(s28, nothing, "\t\t\tLayerElement:  { Type: \"LayerElementUV\" TypedIndex: 0 }"@, ("\t\t}"@ + seq!['\n'] + ("\t}"@ + seq!['\n'] + nothing)), step);
        assert(nothing + "\t\t\tLayerElement:  { Type: \"LayerElementUV\" TypedIndex: 0 }"@ =~= "\t\t\tLayerElement:  { Type: \"LayerElementUV\" TypedIndex: 0 }"@);
        assert(!"\t\t}"@.contains('\n')) by {
            reveal_strlit("\t\t}");
        }
        reading::scan_line(s29, nothing, "\t\t}"@, ("\t}"@ + seq!['\n'] + nothing), step);
        assert(nothing + "\t\t}"@ =~= "\t\t}"@);
        assert(!"\t}"@.contains('\n')) by {
            reveal_strlit("\t}");
        }
        reading::scan_line(s30, nothing, "\t}"@, nothing, step);
        assert(nothing + "\t}"@ =~= "\t}"@);
        reading::scan_nothing(s31, nothing, step);
    }
    assert(fbx::geometry_text(out, mesh, numbers) == t17);
    assert(s31.heads =~= s0.heads + seq![geometry_head()]);
    assert(s31.lists =~= s0.lists + geometry_lists(mesh, numbers));
    assert(s31.properties =~= s0.properties + Seq::empty());
    assert(s31.links =~= s0.links + Seq::empty());
    assert(s31.counts =~= s0.counts + Seq::empty());
}


/// The head of the mesh model.
pub open spec fn model_head() -> Head {
    Head { kind: "\tModel: "@, id: "1000001"@, rest: " \"Model::mesh\", \"Mesh\" {"@ }
}

/// The property of the mesh model.
pub open spec fn model_property() -> Property {
    Property {
        owner: "1000001"@,
        fields: seq![
            "\"DefaultAttributeIndex\""@,
            " \"int\""@,
            " \"Integer\""@,
            " \"\""@,
            "0"@,
        ],
    }
}


proof fn mesh_model_is_read(out: Seq<char>)
    requires
        scanned(out).1.len() == 0,
    ensures
        scanned(fbx::mesh_model_text(out)).1.len() == 0,
        adds(
            scanned(fbx::mesh_model_text(out)).0,
            scanned(out).0,
            seq![model_head()],
            Seq::empty(),
            seq![model_property()],
            Seq::empty(),
            Seq::empty(),
        ),
{
    let step = fbx_step();
    let nothing = Seq::<char>::empty();
    assert(scanned(out) == (scanned(out).0, nothing)) by {
        assert(scanned(out).1 =~= nothing);
    }
    let t0 = out;
    let s0 = scanned(out).0;
    let t1 = t0 + "\tModel: 1000001, \"Model::mesh\", \"Mesh\" {\n\t\tVersion: 232\n\t\tProperties70:  {\n\t\t\tP: \"DefaultAttributeIndex\", \"int\", \"Integer\", \"\",0\n\t\t}\n\t\tShading: T\n\t\tCulling: \"CullingOff\"\n\t}\n"@;
    let s1 = with_line(s0, "\tModel: 1000001, \"Model::mesh\", \"Mesh\" {"@);
    assert(s1 == (FbxReading { heads: s0.heads.push(Head { kind: "\tModel: "@, id: "1000001"@, rest: " \"Model::mesh\", \"Mesh\" {"@ }), owner: "1000001"@, ..s0 })) by {
        assert("\tModel: 1000001, \"Model::mesh\", \"Mesh\" {"@ == "\tModel: "@ + ("1000001, \"Model::mesh\", \"Mesh\" {"@)) by {
            reveal_strlit("\tModel: 1000001, \"Model::mesh\", \"Mesh\" {");
            reveal_strlit("\tModel: ");
            reveal_strlit("1000001, \"Model::mesh\", \"Mesh\" {");
            assert("\tModel: 1000001, \"Model::mesh\", \"Mesh\" {"@ =~= "\tModel: "@ + "1000001, \"Model::mesh\", \"Mesh\" {"@);
            assert("\tModel: 1000001, \"Model::mesh\", \"Mesh\" {"@ =~= "\tModel: "@ + ("1000001, \"Model::mesh\", \"Mesh\" {"@));
        }
        model_line_is_read(s0, "1000001, \"Model::mesh\", \"Mesh\" {"@);
        assert("1000001, \"Model::mesh\", \"Mesh\" {"@ == "1000001"@ + seq![','] + " \"Model::mesh\", \"Mesh\" {"@) by {
            reveal_strlit("1000001, \"Model::mesh\", \"Mesh\" {");
            reveal_strlit("1000001");
            reveal_strlit(" \"Model::mesh\", \"Mesh\" {");
            assert("1000001, \"Model::mesh\", \"Mesh\" {"@ =~= "1000001"@ + seq![','] + " \"Model::mesh\", \"Mesh\" {"@);
        }
        assert(!"1000001"@.contains(',')) by {
            reveal_strlit("1000001");
        }
        head_is_noted(s0, "\tModel: "@, "1000001"@, " \"Model::mesh\", \"Mesh\" {"@);
    }
    let s2 = with_line(s1, "\t\tVersion: 232"@);
    assert(s2 == s1) by {
        assert(is_plain("\t\tVersion: 232"@)) by {
            reveal_strlit("\t\tVersion: 232");
            other_is_plain("\t\tVersion: 232"@, 2, 'V');
        }
        plain_is_skipped(s1, "\t\tVersion: 232"@);
    }
    let s3 = with_line(s2, "\t\tProperties70:  {"@);
    assert(s3 == s2) by {
        assert(is_plain("\t\tProperties70:  {"@)) by {
            reveal_strlit("\t\tProperties70:  {");
            other_is_plain("\t\tProperties70:  {"@, 2, 'P');
        }
        plain_is_skipped(s2, "\t\tProperties70:  {"@);
    }
    let s4 = with_line(s3, "\t\t\tP: \"DefaultAttributeIndex\", \"int\", \"Integer\", \"\",0"@);
    assert(s4 == (FbxReading { properties: s3.properties.push(Property { owner: s3.owner, fields: seq!["\"DefaultAttributeIndex\""@, " \"int\""@, " \"Integer\""@, " \"\""@, "0"@] }), ..s3 })) by {
        assert("\t\t\tP: \"DefaultAttributeIndex\", \"int\", \"Integer\", \"\",0"@ == "\t\t\tP: "@ + ("\"DefaultAttributeIndex\", \"int\", \"Integer\", \"\",0"@)) by {
            reveal_strlit("\t\t\tP: \"DefaultAttributeIndex\", \"int\", \"Integer\", \"\",0");
            reveal_strlit("\t\t\tP: ");
            reveal_strlit("\"DefaultAttributeIndex\", \"int\", \"Integer\", \"\",0");
            assert("\t\t\tP: \"DefaultAttributeIndex\", \"int\", \"Integer\", \"\",0"@ =~= "\t\t\tP: "@ + "\"DefaultAttributeIndex\", \"int\", \"Integer\", \"\",0"@);
            assert("\t\t\tP: \"DefaultAttributeIndex\", \"int\", \"Integer\", \"\",0"@ =~= "\t\t\tP: "@ + ("\"DefaultAttributeIndex\", \"int\", \"Integer\", \"\",0"@));
        }
        property_line_is_read(s3, "\"DefaultAttributeIndex\", \"int\", \"Integer\", \"\",0"@);
        assert("\"DefaultAttributeIndex\", \"int\", \"Integer\", \"\",0"@ == "\"DefaultAttributeIndex\""@ + seq![','] + " \"int\""@ + seq![','] + " \"Integer\""@ + seq![','] + " \"\""@ + seq![','] + "0"@) by {
            reveal_strlit("\"DefaultAttributeIndex\", \"int\", \"Integer\", \"\",0");
            reveal_strlit(" \"\"");
            reveal_strlit(" \"Integer\"");
            reveal_strlit(" \"int\"");
            reveal_strlit("\"DefaultAttributeIndex\"");
            reveal_strlit("0");
            assert("\"DefaultAttributeIndex\", \"int\", \"Integer\", \"\",0"@ =~= "\"DefaultAttributeIndex\""@ + seq![','] + " \"int\""@ + seq![','] + " \"Integer\""@ + seq![','] + " \"\""@ + seq![','] + "0"@);
        }
        assert(!" \"\""@.contains(',')) by {
            reveal_strlit(" \"\"");
        }
        assert(!" \"Integer\""@.contains(',')) by {
            reveal_strlit(" \"Integer\"");
        }
        assert(!" \"int\""@.contains(',')) by {
            reveal_strlit(" \"int\"");
        }
        assert(!"\"DefaultAttributeIndex\""@.contains(',')) by {
            reveal_strlit("\"DefaultAttributeIndex\"");
        }
        assert(!"0"@.contains(',')) by {
            reveal_strlit("0");
        }
        fields_are_split("\"DefaultAttributeIndex\""@, " \"int\""@, " \"Integer\""@, " \"\""@, "0"@, ',');
        reading::split_whole("0"@, ',');
        assert(seq!["\"DefaultAttributeIndex\""@, " \"int\""@, " \"Integer\""@, " \"\""@] + seq!["0"@] =~= seq!["\"DefaultAttributeIndex\""@, " \"int\""@, " \"Integer\""@, " \"\""@, "0"@]);
    }
    let s5 = with_line(s4, "\t\t}"@);
    assert(s5 == s4) by {
        assert(is_plain("\t\t}"@)) by {
            reveal_strlit("\t\t}");
            other_is_plain("\t\t}"@, 2, '}');
        }
        plain_is_skipped(s4, "\t\t}"@);
    }
    let s6 = with_line(s5, "\t\tShading: T"@);
    assert(s6 == s5) by {
        assert(is_plain("\t\tShading: T"@)) by {
            reveal_strlit("\t\tShading: T");
            other_is_plain("\t\tShading: T"@, 2, 'S');
        }
        plain_is_skipped(s5, "\t\tShading: T"@);
    }
    let s7 = with_line(s6, "\t\tCulling: \"CullingOff\""@);
    assert(s7 == s6) by {
        assert(is_plain("\t\tCulling: \"CullingOff\""@)) by {
            reveal_strlit("\t\tCulling: \"CullingOff\"");
            other_is_plain("\t\tCulling: \"CullingOff\""@, 2, 'C');
        }
        plain_is_skipped(s6, "\t\tCulling: \"CullingOff\""@);
    }
    let s8 = with_line(s7, "\t}"@);
    assert(s8 == s7) by {
        assert(is_plain("\t}"@)) by {
            reveal_strlit("\t}");
            other_is_plain("\t}"@, 1, '}');
        }
        plain_is_skipped(s7, "\t}"@);
    }
    assert(scanned(t1) == (s8, nothing)) by {
        reading::scan_more(t0, "\tModel: 1000001, \"Model::mesh\", \"Mesh\" {\n\t\tVersion: 232\n\t\tProperties70:  {\n\t\t\tP: \"DefaultAttributeIndex\", \"int\", \"Integer\", \"\",0\n\t\t}\n\t\tShading: T\n\t\tCulling: \"CullingOff\"\n\t}\n"@, unread(), step);
        assert("\tModel: 1000001, \"Model::mesh\", \"Mesh\" {\n\t\tVersion: 232\n\t\tProperties70:  {\n\t\t\tP: \"DefaultAttributeIndex\", \"int\", \"Integer\", \"\",0\n\t\t}\n\t\tShading: T\n\t\tCulling: \"CullingOff\"\n\t}\n"@ == "\tModel: 1000001, \"Model::mesh\", \"Mesh\" {"@ + seq!['\n'] + ("\t\tVersion: 232"@ + seq!['\n'] + ("\t\tProperties70:  {"@ + seq!['\n'] + ("\t\t\tP: \"DefaultAttributeIndex\", \"int\", \"Integer\", \"\",0"@ + seq!['\n'] + ("\t\t}"@ + seq!['\n'] + ("\t\tShading: T"@ + seq!['\n'] + ("\t\tCulling: \"CullingOff\""@ + seq!['\n'] + ("\t}"@ + seq!['\n'] + nothing)))))))) by {
            reveal_strlit("\tModel: 1000001, \"Model::mesh\", \"Mesh\" {\n\t\tVersion: 232\n\t\tProperties70:  {\n\t\t\tP: \"DefaultAttributeIndex\", \"int\", \"Integer\", \"\",0\n\t\t}\n\t\tShading: T\n\t\tCulling: \"CullingOff\"\n\t}\n");
            reveal_strlit("\t\t\tP: \"DefaultAttributeIndex\", \"int\", \"Integer\", \"\",0");
            reveal_strlit("\t\tCulling: \"CullingOff\"");
            reveal_strlit("\t\tProperties70:  {");
            reveal_strlit("\t\tShading: T");
            reveal_strlit("\t\tVersion: 232");
            reveal_strlit("\t\t}");
            reveal_strlit("\tModel: 1000001, \"Model::mesh\", \"Mesh\" {");
            reveal_strlit("\t}");
            assert("\tModel: 1000001, \"Model::mesh\", \"Mesh\" {\n\t\tVersion: 232\n\t\tProperties70:  {\n\t\t\tP: \"DefaultAttributeIndex\", \"int\", \"Integer\", \"\",0\n\t\t}\n\t\tShading: T\n\t\tCulling: \"CullingOff\"\n\t}\n"@ =~= "\tModel: 1000001, \"Model::mesh\", \"Mesh\" {"@ + seq!['\n'] + ("\t\tVersion: 232"@ + seq!['\n'] + ("\t\tProperties70:  {"@ + seq!['\n'] + ("\t\t\tP: \"DefaultAttributeIndex\", \"int\", \"Integer\", \"\",0"@ + seq!['\n'] + ("\t\t}"@ + seq!['\n'] + ("\t\tShading: T"@ + seq!['\n'] + ("\t\tCulling: \"CullingOff\""@ + seq!['\n'] + ("\t}"@ + seq!['\n'] + nothing))))))));
        }
        assert(!"\tModel: 1000001, \"Model::mesh\", \"Mesh\" {"@.contains('\n')) by {
            reveal_strlit("\tModel: 1000001, \"Model::mesh\", \"Mesh\" {");
        }
        reading::scan_line(s0, nothing, "\tModel: 1000001, \"Model::mesh\", \"Mesh\" {"@, ("\t\tVersion: 232"@ + seq!['\n'] + ("\t\tProperties70:  {"@ + seq!['\n'] + ("\t\t\tP: \"DefaultAttributeIndex\", \"int\", \"Integer\", \"\",0"@ + seq!['\n'] + ("\t\t}"@ + seq!['\n'] + ("\t\tShading: T"@ + seq!['\n'] + ("\t\tCulling: \"CullingOff\""@ + seq!['\n'] + ("\t}"@ + seq!['\n'] + nothing))))))), step);
        assert(nothing + "\tModel: 1000001, \"Model::mesh\", \"Mesh\" {"@ =~= "\tModel: 1000001, \"Model::mesh\", \"Mesh\" {"@);
        assert(!"\t\tVersion: 232"@.contains('\n')) by {
            reveal_strlit("\t\tVersion: 232");
        }
        reading::scan_line(s1, nothing, "\t\tVersion: 232"@, ("\t\tProperties70:  {"@ + seq!['\n'] + ("\t\t\tP: \"DefaultAttributeIndex\", \"int\", \"Integer\", \"\",0"@ + seq!['\n'] + ("\t\t}"@ + seq!['\n'] + ("\t\tShading: T"@ + seq!['\n'] + ("\t\tCulling: \"CullingOff\""@ + seq!['\n'] + ("\t}"@ + seq!['\n'] + nothing)))))), step);
        assert(nothing + "\t\tVersion: 232"@ =~= "\t\tVersion: 232"@);
        assert(!"\t\tProperties70:  {"@.contains('\n')) by {
            reveal_strlit("\t\tProperties70:  {");
        }
        reading::scan_line(s2, nothing, "\t\tProperties70:  {"@, ("\t\t\tP: \"DefaultAttributeIndex\", \"int\", \"Integer\", \"\",0"@ + seq!['\n'] + ("\t\t}"@ + seq!['\n'] + ("\t\tShading: T"@ + seq!['\n'] + ("\t\tCulling: \"CullingOff\""@ + seq!['\n'] + ("\t}"@ + seq!['\n'] + nothing))))), step);
        assert(nothing + "\t\tProperties70:  {"@ =~= "\t\tProperties70:  {"@);
        assert(!"\t\t\tP: \"DefaultAttributeIndex\", \"int\", \"Integer\", \"\",0"@.contains('\n')) by {
            reveal_strlit("\t\t\tP: \"DefaultAttributeIndex\", \"int\", \"Integer\", \"\",0");
        }
        reading::scan_line(s3, nothing, "\t\t\tP: \"DefaultAttributeIndex\", \"int\", \"Integer\", \"\",0"@, ("\t\t}"@ + seq!['\n'] + ("\t\tShading: T"@ + seq!['\n'] + ("\t\tCulling: \"CullingOff\""@ + seq!['\n'] + ("\t}"@ + seq!['\n'] + nothing)))), step);
        assert(nothing + "\t\t\tP: \"DefaultAttributeIndex\", \"int\", \"Integer\", \"\",0"@ =~= "\t\t\tP: \"DefaultAttributeIndex\", \"int\", \"Integer\", \"\",0"@);
        assert(!"\t\t}"@.contains('\n')) by {
            reveal_strlit("\t\t}");
        }
        reading::scan_line(s4, nothing, "\t\t}"@, ("\t\tShading: T"@ + seq!['\n'] + ("\t\tCulling: \"CullingOff\""@ + seq!['\n'] + ("\t}"@ + seq!['\n'] + nothing))), step);
        assert(nothing + "\t\t}"@ =~= "\t\t}"@);
        assert(!"\t\tShading: T"@.contains('\n')) by {
            reveal_strlit("\t\tShading: T");
        }
        reading::scan_line(s5, nothing, "\t\tShading: T"@, ("\t\tCulling: \"CullingOff\""@ + seq!['\n'] + ("\t}"@ + seq!['\n'] + nothing)), step);
        assert(nothing + "\t\tShading: T"@ =~= "\t\tShading: T"@);
        assert(!"\t\tCulling: \"CullingOff\""@.contains('\n')) by {
            reveal_strlit("\t\tCulling: \"CullingOff\"");
        }
        reading::scan_line(s6, nothing, "\t\tCulling: \"CullingOff\""@, ("\t}"@ + seq!['\n'] + nothing), step);
        assert(nothing + "\t\tCulling: \"CullingOff\""@ =~= "\t\tCulling: \"CullingOff\""@);
        assert(!"\t}"@.contains('\n')) by {
            reveal_strlit("\t}");
        }
        reading::scan_line(s7, nothing, "\t}"@, nothing, step);
        assert(nothing + "\t}"@ =~= "\t}"@);
        reading::scan_nothing(s8, nothing, step);
    }
    assert(fbx::mesh_model_text(out) == t1);
    assert(s8.heads =~= s0.heads + seq![model_head()]);
    assert(s8.lists =~= s0.lists + Seq::empty());
    assert(s8.properties =~= s0.properties + seq![model_property()]);
    assert(s8.links =~= s0.links + Seq::empty());
    assert(s8.counts =~= s0.counts + Seq::empty());
}


/// The head of a limb: its number and its name.
pub open spec fn limb_head(bones: Seq<Bone>, bone: int) -> Head {
    Head {
        kind: "\tModel: "@,
        id: text::decimal((fbx::LIMB_BASE + bone) as nat),
        rest: " \"Model::"@ + bones[bone].name@ + "\", \"LimbNode\" {"@,
    }
}

/// A transform property with its numbers.
pub open spec fn transform_property(owner: Seq<char>, name: Seq<char>, numbers: Seq<Decimal>) -> Property {
    Property {
        owner,
        fields: seq![seq!['"'] + name + seq!['"'], seq![' ', '"'] + name + seq!['"'], " \"\""@, " \"A\""@]
            + decimals(numbers),
    }
}

/// The rest pose of a limb.
pub open spec fn limb_properties(numbers: FbxNumbers, bone: int) -> Seq<Property> {
    let owner = text::decimal((fbx::LIMB_BASE + bone) as nat);
    seq![
        transform_property(owner, "Lcl Translation"@, numbers.translations@[bone]@),
        transform_property(owner, "Lcl Rotation"@, numbers.rotations@[bone]@),
        transform_property(owner, "Lcl Scaling"@, numbers.scales@[bone]@),
    ]
}

/// Whether a bone's name can stand in a line.
pub open spec fn names_fit(bones: Seq<Bone>) -> bool {
    forall|i: int| 0 <= i < bones.len() ==> !(#[trigger] bones[i]).name@.contains('\n')
}

/// Whether all numbers of the bones can stand in lists.
pub open spec fn bone_numbers_fit(numbers: FbxNumbers, bones: nat) -> bool {
    &&& numbers.complete(bones)
    &&& forall|b: int|
        0 <= b < bones ==> are_numbers((#[trigger] numbers.translations@[b])@)
    &&& forall|b: int| 0 <= b < bones ==> are_numbers((#[trigger] numbers.rotations@[b])@)
    &&& forall|b: int| 0 <= b < bones ==> are_numbers((#[trigger] numbers.scales@[b])@)
    &&& forall|b: int| 0 <= b < bones ==> are_numbers((#[trigger] numbers.global_binds@[b])@)
}


#[verifier::rlimit(100)]
proof fn limb_is_read(out: Seq<char>, bones: Seq<Bone>, numbers: FbxNumbers, bone: int)
    requires
        scanned(out).1.len() == 0,
        0 <= bone < bones.len(),
        names_fit(bones),
        bone_numbers_fit(numbers, bones.len()),
    ensures
        scanned(fbx::limb_text(out, bones, numbers, bone)).1.len() == 0,
        adds(
            scanned(fbx::limb_text(out, bones, numbers, bone)).0,
            scanned(out).0,
            seq![limb_head(bones, bone)],
            Seq::empty(),
            limb_properties(numbers, bone),
            Seq::empty(),
            Seq::empty(),
        ),
{
    let step = fbx_step();
    let nothing = Seq::<char>::empty();
    assert(scanned(out) == (scanned(out).0, nothing)) by {
        assert(scanned(out).1 =~= nothing);
    }
    assert(!bones[bone].name@.contains('\n'));
    reading::decimal_lacks((fbx::LIMB_BASE + bone) as nat, '\n');
    decimals_are_read(numbers.translations@[bone]@);
    decimals_are_read(numbers.rotations@[bone]@);
    decimals_are_read(numbers.scales@[bone]@);
    let t0 = out;
    let s0 = scanned(out).0;
    let t1 = t0 + "\tModel: "@;
    assert(scanned(t1) == (s0, "\tModel: "@)) by {
        reading::scan_more(t0, "\tModel: "@, unread(), step);
        reveal_strlit("\tModel: ");
        reading::scan_plain(s0, nothing, "\tModel: "@, step);
        assert(nothing + "\tModel: "@ =~= "\tModel: "@);
    }
    let t2 = t1 + text::decimal((fbx::LIMB_BASE + bone) as nat);
    assert(scanned(t2) == (s0, "\tModel: "@ + text::decimal((fbx::LIMB_BASE + bone) as nat))) by {
        reading::scan_more(t1, text::decimal((fbx::LIMB_BASE + bone) as nat), unread(), step);
        reading::scan_plain(s0, "\tModel: "@, text::decimal((fbx::LIMB_BASE + bone) as nat), step);
    }
    let t3 = t2 + ", \"Model::"@;
    assert(scanned(t3) == (s0, "\tModel: "@ + text::decimal((fbx::LIMB_BASE + bone) as nat) + ", \"Model::"@)) by {
        reading::scan_more(t2, ", \"Model::"@, unread(), step);
        reveal_strlit(", \"Model::");
        reading::scan_plain(s0, "\tModel: "@ + text::decimal((fbx::LIMB_BASE + bone) as nat), ", \"Model::"@, step);
    }
    let t4 = t3 + bones[bone].name@;
    assert(scanned(t4) == (s0, "\tModel: "@ + text::decimal((fbx::LIMB_BASE + bone) as nat) + ", \"Model::"@ + bones[bone].name@)) by {
        reading::scan_more(t3, bones[bone].name@, unread(), step);
        reading::scan_plain(s0, "\tModel: "@ + text::decimal((fbx::LIMB_BASE + bone) as nat) + ", \"Model::"@, bones[bone].name@, step);
    }
    let t5 = t4 + "\", \"LimbNode\" {\n\t\tVersion: 232\n\t\tProperties70:  {\n\t\t\tP: \"Lcl Translation\", \"Lcl Translation\", \"\", \"A\","@;
    let s1 = with_line(s0, "\tModel: "@ + text::decimal((fbx::LIMB_BASE + bone) as nat) + ", \"Model::"@ + bones[bone].name@ + "\", \"LimbNode\" {"@);
    assert(s1 == (FbxReading { heads: s0.heads.push(Head { kind: "\tModel: "@, id: text::decimal((fbx::LIMB_BASE + bone) as nat), rest: " \"Model::"@ + bones[bone].name@ + "\", \"LimbNode\" {"@ }), owner: text::decimal((fbx::LIMB_BASE + bone) as nat), ..s0 })) by {
        assert("\tModel: "@ + text::decimal((fbx::LIMB_BASE + bone) as nat) + ", \"Model::"@ + bones[bone].name@ + "\", \"LimbNode\" {"@ == "\tModel: "@ + (text::decimal((fbx::LIMB_BASE + bone) as nat) + ", \"Model::"@ + bones[bone].name@ + "\", \"LimbNode\" {"@)) by {
            assert("\tModel: "@ + text::decimal((fbx::LIMB_BASE + bone) as nat) + ", \"Model::"@ + bones[bone].name@ + "\", \"LimbNode\" {"@ =~= "\tModel: "@ + (text::decimal((fbx::LIMB_BASE + bone) as nat) + ", \"Model::"@ + bones[bone].name@ + "\", \"LimbNode\" {"@));
        }
        model_line_is_read(s0, text::decimal((fbx::LIMB_BASE + bone) as nat) + ", \"Model::"@ + bones[bone].name@ + "\", \"LimbNode\" {"@);
        assert(text::decimal((fbx::LIMB_BASE + bone) as nat) + ", \"Model::"@ + bones[bone].name@ + "\", \"LimbNode\" {"@ == text::decimal((fbx::LIMB_BASE + bone) as nat) + seq![','] + (" \"Model::"@ + bones[bone].name@ + "\", \"LimbNode\" {"@)) by {
            reveal_strlit(", \"Model::");
            reveal_strlit(" \"Model::");
            assert(", \"Model::"@ =~= seq![','] + " \"Model::"@);
            assert(text::decimal((fbx::LIMB_BASE + bone) as nat) + (seq![','] + " \"Model::"@) + bones[bone].name@ + "\", \"LimbNode\" {"@ =~= text::decimal((fbx::LIMB_BASE + bone) as nat) + seq![','] + (" \"Model::"@ + bones[bone].name@ + "\", \"LimbNode\" {"@));
        }
        reading::decimal_lacks((fbx::LIMB_BASE + bone) as nat, ',');
        head_is_noted(s0, "\tModel: "@, text::decimal((fbx::LIMB_BASE + bone) as nat), " \"Model::"@ + bones[bone].name@ + "\", \"LimbNode\" {"@);
    }
    let s2 = with_line(s1, "\t\tVersion: 232"@);
    assert(s2 == s1) by {
        assert(is_plain("\t\tVersion: 232"@)) by {
            reveal_strlit("\t\tVersion: 232");
            other_is_plain("\t\tVersion: 232"@, 2, 'V');
        }
        plain_is_skipped(s1, "\t\tVersion: 232"@);
    }
    let s3 = with_line(s2, "\t\tProperties70:  {"@);
    assert(s3 == s2) by {
        assert(is_plain("\t\tProperties70:  {"@)) by {
            reveal_strlit("\t\tProperties70:  {");
            other_is_plain("\t\tProperties70:  {"@, 2, 'P');
        }
        plain_is_skipped(s2, "\t\tProperties70:  {"@);
    }
    assert(scanned(t5) == (s3, "\t\t\tP: \"Lcl Translation\", \"Lcl Translation\", \"\", \"A\","@)) by {
        reading::scan_more(t4, "\", \"LimbNode\" {\n\t\tVersion: 232\n\t\tProperties70:  {\n\t\t\tP: \"Lcl Translation\", \"Lcl Translation\", \"\", \"A\","@, unread(), step);
        assert("\", \"LimbNode\" {\n\t\tVersion: 232\n\t\tProperties70:  {\n\t\t\tP: \"Lcl Translation\", \"Lcl Translation\", \"\", \"A\","@ == "\", \"LimbNode\" {"@ + seq!['\n'] + ("\t\tVersion: 232"@ + seq!['\n'] + ("\t\tProperties70:  {"@ + seq!['\n'] + "\t\t\tP: \"Lcl Translation\", \"Lcl Translation\", \"\", \"A\","@))) by {
            reveal_strlit("\", \"LimbNode\" {\n\t\tVersion: 232\n\t\tProperties70:  {\n\t\t\tP: \"Lcl Translation\", \"Lcl Translation\", \"\", \"A\",");
            reveal_strlit("\t\t\tP: \"Lcl Translation\", \"Lcl Translation\", \"\", \"A\",");
            reveal_strlit("\t\tProperties70:  {");
            reveal_strlit("\t\tVersion: 232");
            reveal_strlit("\", \"LimbNode\" {");
            assert("\", \"LimbNode\" {\n\t\tVersion: 232\n\t\tProperties70:  {\n\t\t\tP: \"Lcl Translation\", \"Lcl Translation\", \"\", \"A\","@ =~= "\", \"LimbNode\" {"@ + seq!['\n'] + ("\t\tVersion: 232"@ + seq!['\n'] + ("\t\tProperties70:  {"@ + seq!['\n'] + "\t\t\tP: \"Lcl Translation\", \"Lcl Translation\", \"\", \"A\","@)));
        }
        assert(!"\", \"LimbNode\" {"@.contains('\n')) by {
            reveal_strlit("\", \"LimbNode\" {");
        }
        reading::scan_line(s0, "\tModel: "@ + text::decimal((fbx::LIMB_BASE + bone) as nat) + ", \"Model::"@ + bones[bone].name@, "\", \"LimbNode\" {"@, ("\t\tVersion: 232"@ + seq!['\n'] + ("\t\tProperties70:  {"@ + seq!['\n'] + "\t\t\tP: \"Lcl Translation\", \"Lcl Translation\", \"\", \"A\","@)), step);
        assert(!"\t\tVersion: 232"@.contains('\n')) by {
            reveal_strlit("\t\tVersion: 232");
        }
        reading::scan_line(s1, nothing, "\t\tVersion: 232"@, ("\t\tProperties70:  {"@ + seq!['\n'] + "\t\t\tP: \"Lcl Translation\", \"Lcl Translation\", \"\", \"A\","@), step);
        assert(nothing + "\t\tVersion: 232"@ =~= "\t\tVersion: 232"@);
        assert(!"\t\tProperties70:  {"@.contains('\n')) by {
            reveal_strlit("\t\tProperties70:  {");
        }
        reading::scan_line(s2, nothing, "\t\tProperties70:  {"@, "\t\t\tP: \"Lcl Translation\", \"Lcl Translation\", \"\", \"A\","@, step);
        assert(nothing + "\t\tProperties70:  {"@ =~= "\t\tProperties70:  {"@);
        assert(!"\t\t\tP: \"Lcl Translation\", \"Lcl Translation\", \"\", \"A\","@.contains('\n')) by {
            reveal_strlit("\t\t\tP: \"Lcl Translation\", \"Lcl Translation\", \"\", \"A\",");
        }
        reading::scan_plain(s3, nothing, "\t\t\tP: \"Lcl Translation\", \"Lcl Translation\", \"\", \"A\","@, step);
        assert(nothing + "\t\t\tP: \"Lcl Translation\", \"Lcl Translation\", \"\", \"A\","@ =~= "\t\t\tP: \"Lcl Translation\", \"Lcl Translation\", \"\", \"A\","@);
    }
    let t6 = t5 + fbx::decimals_text(numbers.translations@[bone]@);
    assert(scanned(t6) == (s3, "\t\t\tP: \"Lcl Translation\", \"Lcl Translation\", \"\", \"A\","@ + fbx::decimals_text(numbers.translations@[bone]@))) by {
        reading::scan_more(t5, fbx::decimals_text(numbers.translations@[bone]@), unread(), step);
        reading::scan_plain(s3, "\t\t\tP: \"Lcl Translation\", \"Lcl Translation\", \"\", \"A\","@, fbx::decimals_text(numbers.translations@[bone]@), step);
    }
    let t7 = t6 + "\n\t\t\tP: \"Lcl Rotation\", \"Lcl Rotation\", \"\", \"A\","@;
    let s4 = with_line(s3, "\t\t\tP: \"Lcl Translation\", \"Lcl Translation\", \"\", \"A\","@ + fbx::decimals_text(numbers.translations@[bone]@));
    assert(s4 == (FbxReading { properties: s3.properties.push(Property { owner: s3.owner, fields: seq!["\"Lcl Translation\""@, " \"Lcl Translation\""@, " \"\""@, " \"A\""@] + reading::split(fbx::decimals_text(numbers.translations@[bone]@), ',') }), ..s3 })) by {
        assert("\t\t\tP: \"Lcl Translation\", \"Lcl Translation\", \"\", \"A\","@ + fbx::decimals_text(numbers.translations@[bone]@) == "\t\t\tP: "@ + ("\"Lcl Translation\", \"Lcl Translation\", \"\", \"A\","@ + fbx::decimals_text(numbers.translations@[bone]@))) by {
            reveal_strlit("\t\t\tP: \"Lcl Translation\", \"Lcl Translation\", \"\", \"A\",");
            reveal_strlit("\t\t\tP: ");
            reveal_strlit("\"Lcl Translation\", \"Lcl Translation\", \"\", \"A\",");
            assert("\t\t\tP: \"Lcl Translation\", \"Lcl Translation\", \"\", \"A\","@ =~= "\t\t\tP: "@ + "\"Lcl Translation\", \"Lcl Translation\", \"\", \"A\","@);
            assert("\t\t\tP: \"Lcl Translation\", \"Lcl Translation\", \"\", \"A\","@ + fbx::decimals_text(numbers.translations@[bone]@) =~= "\t\t\tP: "@ + ("\"Lcl Translation\", \"Lcl Translation\", \"\", \"A\","@ + fbx::decimals_text(numbers.translations@[bone]@)));
        }
        property_line_is_read(s3, "\"Lcl Translation\", \"Lcl Translation\", \"\", \"A\","@ + fbx::decimals_text(numbers.translations@[bone]@));
        assert("\"Lcl Translation\", \"Lcl Translation\", \"\", \"A\","@ + fbx::decimals_text(numbers.translations@[bone]@) == "\"Lcl Translation\""@ + seq![','] + " \"Lcl Translation\""@ + seq![','] + " \"\""@ + seq![','] + " \"A\""@ + seq![','] + fbx::decimals_text(numbers.translations@[bone]@)) by {
            reveal_strlit("\"Lcl Translation\", \"Lcl Translation\", \"\", \"A\",");
            reveal_strlit(" \"\"");
            reveal_strlit(" \"A\"");
            reveal_strlit(" \"Lcl Translation\"");
            reveal_strlit("\"Lcl Translation\"");
            assert("\"Lcl Translation\", \"Lcl Translation\", \"\", \"A\","@ =~= "\"Lcl Translation\""@ + seq![','] + " \"Lcl Translation\""@ + seq![','] + " \"\""@ + seq![','] + " \"A\""@ + seq![',']);
        }
        assert(!" \"\""@.contains(',')) by {
            reveal_strlit(" \"\"");
        }
        assert(!" \"A\""@.contains(',')) by {
            reveal_strlit(" \"A\"");
        }
        assert(!" \"Lcl Translation\""@.contains(',')) by {
            reveal_strlit(" \"Lcl Translation\"");
        }
        assert(!"\"Lcl Translation\""@.contains(',')) by {
            reveal_strlit("\"Lcl Translation\"");
        }
        fields_are_split("\"Lcl Translation\""@, " \"Lcl Translation\""@, " \"\""@, " \"A\""@, fbx::decimals_text(numbers.translations@[bone]@), ',');
    }
    assert(scanned(t7) == (s4, "\t\t\tP: \"Lcl Rotation\", \"Lcl Rotation\", \"\", \"A\","@)) by {
        reading::scan_more(t6, "\n\t\t\tP: \"Lcl Rotation\", \"Lcl Rotation\", \"\", \"A\","@, unread(), step);
        assert("\n\t\t\tP: \"Lcl Rotation\", \"Lcl Rotation\", \"\", \"A\","@ == nothing + seq!['\n'] + "\t\t\tP: \"Lcl Rotation\", \"Lcl Rotation\", \"\", \"A\","@) by {
            reveal_strlit("\n\t\t\tP: \"Lcl Rotation\", \"Lcl Rotation\", \"\", \"A\",");
            reveal_strlit("\t\t\tP: \"Lcl Rotation\", \"Lcl Rotation\", \"\", \"A\",");
            assert("\n\t\t\tP: \"Lcl Rotation\", \"Lcl Rotation\", \"\", \"A\","@ =~= nothing + seq!['\n'] + "\t\t\tP: \"Lcl Rotation\", \"Lcl Rotation\", \"\", \"A\","@);
        }
        reading::scan_line(s3, "\t\t\tP: \"Lcl Translation\", \"Lcl Translation\", \"\", \"A\","@ + fbx::decimals_text(numbers.translations@[bone]@), nothing, "\t\t\tP: \"Lcl Rotation\", \"Lcl Rotation\", \"\", \"A\","@, step);
        assert("\t\t\tP: \"Lcl Translation\", \"Lcl Translation\", \"\", \"A\","@ + fbx::decimals_text(numbers.translations@[bone]@) + nothing =~= "\t\t\tP: \"Lcl Translation\", \"Lcl Translation\", \"\", \"A\","@ + fbx::decimals_text(numbers.translations@[bone]@));
        assert(!"\t\t\tP: \"Lcl Rotation\", \"Lcl Rotation\", \"\", \"A\","@.contains('\n')) by {
            reveal_strlit("\t\t\tP: \"Lcl Rotation\", \"Lcl Rotation\", \"\", \"A\",");
        }
        reading::scan_plain(s4, nothing, "\t\t\tP: \"Lcl Rotation\", \"Lcl Rotation\", \"\", \"A\","@, step);
        assert(nothing + "\t\t\tP: \"Lcl Rotation\", \"Lcl Rotation\", \"\", \"A\","@ =~= "\t\t\tP: \"Lcl Rotation\", \"Lcl Rotation\", \"\", \"A\","@);
    }
    let t8 = t7 + fbx::decimals_text(numbers.rotations@[bone]@);
    assert(scanned(t8) == (s4, "\t\t\tP: \"Lcl Rotation\", \"Lcl Rotation\", \"\", \"A\","@ + fbx::decimals_text(numbers.rotations@[bone]@))) by {
        reading::scan_more(t7, fbx::decimals_text(numbers.rotations@[bone]@), unread(), step);
        reading::scan_plain(s4, "\t\t\tP: \"Lcl Rotation\", \"Lcl Rotation\", \"\", \"A\","@, fbx::decimals_text(numbers.rotations@[bone]@), step);
    }
    let t9 = t8 + "\n\t\t\tP: \"Lcl Scaling\", \"Lcl Scaling\", \"\", \"A\","@;
    let s5 = with_line(s4, "\t\t\tP: \"Lcl Rotation\", \"Lcl Rotation\", \"\", \"A\","@ + fbx::decimals_text(numbers.rotations@[bone]@));
    assert(s5 == (FbxReading { properties: s4.properties.push(Property { owner: s4.owner, fields: seq!["\"Lcl Rotation\""@, " \"Lcl Rotation\""@, " \"\""@, " \"A\""@] + reading::split(fbx::decimals_text(numbers.rotations@[bone]@), ',') }), ..s4 })) by {
        assert("\t\t\tP: \"Lcl Rotation\", \"Lcl Rotation\", \"\", \"A\","@ + fbx::decimals_text(numbers.rotations@[bone]@) == "\t\t\tP: "@ + ("\"Lcl Rotation\", \"Lcl Rotation\", \"\", \"A\","@ + fbx::decimals_text(numbers.rotations@[bone]@))) by {
            reveal_strlit("\t\t\tP: \"Lcl Rotation\", \"Lcl Rotation\", \"\", \"A\",");
            reveal_strlit("\t\t\tP: ");
            reveal_strlit("\"Lcl Rotation\", \"Lcl Rotation\", \"\", \"A\",");
            assert("\t\t\tP: \"Lcl Rotation\", \"Lcl Rotation\", \"\", \"A\","@ =~= "\t\t\tP: "@ + "\"Lcl Rotation\", \"Lcl Rotation\", \"\", \"A\","@);
            assert("\t\t\tP: \"Lcl Rotation\", \"Lcl Rotation\", \"\", \"A\","@ + fbx::decimals_text(numbers.rotations@[bone]@) =~= "\t\t\tP: "@ + ("\"Lcl Rotation\", \"Lcl Rotation\", \"\", \"A\","@ + fbx::decimals_text(numbers.rotations@[bone]@)));
        }
        property_line_is_read(s4, "\"Lcl Rotation\", \"Lcl Rotation\", \"\", \"A\","@ + fbx::decimals_text(numbers.rotations@[bone]@));
        assert("\"Lcl Rotation\", \"Lcl Rotation\", \"\", \"A\","@ + fbx::decimals_text(numbers.rotations@[bone]@) == "\"Lcl Rotation\""@ + seq![','] + " \"Lcl Rotation\""@ + seq![','] + " \"\""@ + seq![','] + " \"A\""@ + seq![','] + fbx::decimals_text(numbers.rotations@[bone]@)) by {
            reveal_strlit("\"Lcl Rotation\", \"Lcl Rotation\", \"\", \"A\",");
            reveal_strlit(" \"\"");
            reveal_strlit(" \"A\"");
            reveal_strlit(" \"Lcl Rotation\"");
            reveal_strlit("\"Lcl Rotation\"");
            assert("\"Lcl Rotation\", \"Lcl Rotation\", \"\", \"A\","@ =~= "\"Lcl Rotation\""@ + seq![','] + " \"Lcl Rotation\""@ + seq![','] + " \"\""@ + seq![','] + " \"A\""@ + seq![',']);
        }
        assert(!" \"\""@.contains(',')) by {
            reveal_strlit(" \"\"");
        }
        assert(!" \"A\""@.contains(',')) by {
            reveal_strlit(" \"A\"");
        }
        assert(!" \"Lcl Rotation\""@.contains(',')) by {
            reveal_strlit(" \"Lcl Rotation\"");
        }
        assert(!"\"Lcl Rotation\""@.contains(',')) by {
            reveal_strlit("\"Lcl Rotation\"");
        }
        fields_are_split("\"Lcl Rotation\""@, " \"Lcl Rotation\""@, " \"\""@, " \"A\""@, fbx::decimals_text(numbers.rotations@[bone]@), ',');
    }
    assert(scanned(t9) == (s5, "\t\t\tP: \"Lcl Scaling\", \"Lcl Scaling\", \"\", \"A\","@)) by {
        reading::scan_more(t8, "\n\t\t\tP: \"Lcl Scaling\", \"Lcl Scaling\", \"\", \"A\","@, unread(), step);
        assert("\n\t\t\tP: \"Lcl Scaling\", \"Lcl Scaling\", \"\", \"A\","@ == nothing + seq!['\n'] + "\t\t\tP: \"Lcl Scaling\", \"Lcl Scaling\", \"\", \"A\","@) by {
            reveal_strlit("\n\t\t\tP: \"Lcl Scaling\", \"Lcl Scaling\", \"\", \"A\",");
            reveal_strlit("\t\t\tP: \"Lcl Scaling\", \"Lcl Scaling\", \"\", \"A\",");
            assert("\n\t\t\tP: \"Lcl Scaling\", \"Lcl Scaling\", \"\", \"A\","@ =~= nothing + seq!['\n'] + "\t\t\tP: \"Lcl Scaling\", \"Lcl Scaling\", \"\", \"A\","@);
        }
        reading::scan_line(s4, "\t\t\tP: \"Lcl Rotation\", \"Lcl Rotation\", \"\", \"A\","@ + fbx::decimals_text(numbers.rotations@[bone]@), nothing, "\t\t\tP: \"Lcl Scaling\", \"Lcl Scaling\", \"\", \"A\","@, step);
        assert("\t\t\tP: \"Lcl Rotation\", \"Lcl Rotation\", \"\", \"A\","@ + fbx::decimals_text(numbers.rotations@[bone]@) + nothing =~= "\t\t\tP: \"Lcl Rotation\", \"Lcl Rotation\", \"\", \"A\","@ + fbx::decimals_text(numbers.rotations@[bone]@));
        assert(!"\t\t\tP: \"Lcl Scaling\", \"Lcl Scaling\", \"\", \"A\","@.contains('\n')) by {
            reveal_strlit("\t\t\tP: \"Lcl Scaling\", \"Lcl Scaling\", \"\", \"A\",");
        }
        reading::scan_plain(s5, nothing, "\t\t\tP: \"Lcl Scaling\", \"Lcl Scaling\", \"\", \"A\","@, step);
        assert(nothing + "\t\t\tP: \"Lcl Scaling\", \"Lcl Scaling\", \"\", \"A\","@ =~= "\t\t\tP: \"Lcl Scaling\", \"Lcl Scaling\", \"\", \"A\","@);
    }
    let t10 = t9 + fbx::decimals_text(numbers.scales@[bone]@);
    assert(scanned(t10) == (s5, "\t\t\tP: \"Lcl Scaling\", \"Lcl Scaling\", \"\", \"A\","@ + fbx::decimals_text(numbers.scales@[bone]@))) by {
        reading::scan_more(t9, fbx::decimals_text(numbers.scales@[bone]@), unread(), step);
        reading::scan_plain(s5, "\t\t\tP: \"Lcl Scaling\", \"Lcl Scaling\", \"\", \"A\","@, fbx::decimals_text(numbers.scales@[bone]@), step);
    }
    let t11 = t10 + "\n\t\t}\n\t}\n"@;
    let s6 = with_line(s5, "\t\t\tP: \"Lcl Scaling\", \"Lcl Scaling\", \"\", \"A\","@ + fbx::decimals_text(numbers.scales@[bone]@));
    assert(s6 == (FbxReading { properties: s5.properties.push(Property { owner: s5.owner, fields: seq!["\"Lcl Scaling\""@, " \"Lcl Scaling\""@, " \"\""@, " \"A\""@] + reading::split(fbx::decimals_text(numbers.scales@[bone]@), ',') }), ..s5 })) by {
        assert("\t\t\tP: \"Lcl Scaling\", \"Lcl Scaling\", \"\", \"A\","@ + fbx::decimals_text(numbers.scales@[bone]@) == "\t\t\tP: "@ + ("\"Lcl Scaling\", \"Lcl Scaling\", \"\", \"A\","@ + fbx::decimals_text(numbers.scales@[bone]@))) by {
            reveal_strlit("\t\t\tP: \"Lcl Scaling\", \"Lcl Scaling\", \"\", \"A\",");
            reveal_strlit("\t\t\tP: ");
            reveal_strlit("\"Lcl Scaling\", \"Lcl Scaling\", \"\", \"A\",");
            assert("\t\t\tP: \"Lcl Scaling\", \"Lcl Scaling\", \"\", \"A\","@ =~= "\t\t\tP: "@ + "\"Lcl Scaling\", \"Lcl Scaling\", \"\", \"A\","@);
            assert("\t\t\tP: \"Lcl Scaling\", \"Lcl Scaling\", \"\", \"A\","@ + fbx::decimals_text(numbers.scales@[bone]@) =~= "\t\t\tP: "@ + ("\"Lcl Scaling\", \"Lcl Scaling\", \"\", \"A\","@ + fbx::decimals_text(numbers.scales@[bone]@)));
        }
        property_line_is_read(s5, "\"Lcl Scaling\", \"Lcl Scaling\", \"\", \"A\","@ + fbx::decimals_text(numbers.scales@[bone]@));
        assert("\"Lcl Scaling\", \"Lcl Scaling\", \"\", \"A\","@ + fbx::decimals_text(numbers.scales@[bone]@) == "\"Lcl Scaling\""@ + seq![','] + " \"Lcl Scaling\""@ + seq![','] + " \"\""@ + seq![','] + " \"A\""@ + seq![','] + fbx::decimals_text(numbers.scales@[bone]@)) by {
            reveal_strlit("\"Lcl Scaling\", \"Lcl Scaling\", \"\", \"A\",");
            reveal_strlit(" \"\"");
            reveal_strlit(" \"A\"");
            reveal_strlit(" \"Lcl Scaling\"");
            reveal_strlit("\"Lcl Scaling\"");
            assert("\"Lcl Scaling\", \"Lcl Scaling\", \"\", \"A\","@ =~= "\"Lcl Scaling\""@ + seq![','] + " \"Lcl Scaling\""@ + seq![','] + " \"\""@ + seq![','] + " \"A\""@ + seq![',']);
        }
        assert(!" \"\""@.contains(',')) by {
            reveal_strlit(" \"\"");
        }
        assert(!" \"A\""@.contains(',')) by {
            reveal_strlit(" \"A\"");
        }
        assert(!" \"Lcl Scaling\""@.contains(',')) by {
            reveal_strlit(" \"Lcl Scaling\"");
        }
        assert(!"\"Lcl Scaling\""@.contains(',')) by {
            reveal_strlit("\"Lcl Scaling\"");
        }
        fields_are_split("\"Lcl Scaling\""@, " \"Lcl Scaling\""@, " \"\""@, " \"A\""@, fbx::decimals_text(numbers.scales@[bone]@), ',');
    }
    let s7 = with_line(s6, "\t\t}"@);
    assert(s7 == s6) by {
        assert(is_plain("\t\t}"@)) by {
            reveal_strlit("\t\t}");
            other_is_plain("\t\t}"@, 2, '}');
        }
        plain_is_skipped(s6, "\t\t}"@);
    }
    let s8 = with_line(s7, "\t}"@);
    assert(s8 == s7) by {
        assert(is_plain("\t}"@)) by {
            reveal_strlit("\t}");
            other_is_plain("\t}"@, 1, '}');
        }
        plain_is_skipped(s7, "\t}"@);
    }
    assert(scanned(t11) == (s8, nothing)) by {
        reading::scan_more(t10, "\n\t\t}\n\t}\n"@, unread(), step);
        assert("\n\t\t}\n\t}\n"@ == nothing + seq!['\n'] + ("\t\t}"@ + seq!['\n'] + ("\t}"@ + seq!['\n'] + nothing))) by {
            reveal_strlit("\n\t\t}\n\t}\n");
            reveal_strlit("\t\t}");
            reveal_strlit("\t}");
            assert("\n\t\t}\n\t}\n"@ =~= nothing + seq!['\n'] + ("\t\t}"@ + seq!['\n'] + ("\t}"@ + seq!['\n'] + nothing)));
        }
        reading::scan_line(s5, "\t\t\tP: \"Lcl Scaling\", \"Lcl Scaling\", \"\", \"A\","@ + fbx::decimals_text(numbers.scales@[bone]@), nothing, ("\t\t}"@ + seq!['\n'] + ("\t}"@ + seq!['\n'] + nothing)), step);
        assert("\t\t\tP: \"Lcl Scaling\", \"Lcl Scaling\", \"\", \"A\","@ + fbx::decimals_text(numbers.scales@[bone]@) + nothing =~= "\t\t\tP: \"Lcl Scaling\", \"Lcl Scaling\", \"\", \"A\","@ + fbx::decimals_text(numbers.scales@[bone]@));
        assert(!"\t\t}"@.contains('\n')) by {
            reveal_strlit("\t\t}");
        }
        reading::scan_line(s6, nothing, "\t\t}"@, ("\t}"@ + seq!['\n'] + nothing), step);
        assert(nothing + "\t\t}"@ =~= "\t\t}"@);
        assert(!"\t}"@.contains('\n')) by {
            reveal_strlit("\t}");
        }
        reading::scan_line(s7, nothing, "\t}"@, nothing, step);
        assert(nothing + "\t}"@ =~= "\t}"@);
        reading::scan_nothing(s8, nothing, step);
    }
    assert(fbx::limb_text(out, bones, numbers, bone) == t11);
    assert("\"Lcl Translation\""@ =~= seq!['"'] + "Lcl Translation"@ + seq!['"']) by {
        reveal_strlit("\"Lcl Translation\"");
        reveal_strlit("Lcl Translation");
    }
    assert(" \"Lcl Translation\""@ =~= seq![' ', '"'] + "Lcl Translation"@ + seq!['"']) by {
        reveal_strlit(" \"Lcl Translation\"");
        reveal_strlit("Lcl Translation");
    }
    assert("\"Lcl Rotation\""@ =~= seq!['"'] + "Lcl Rotation"@ + seq!['"']) by {
        reveal_strlit("\"Lcl Rotation\"");
        reveal_strlit("Lcl Rotation");
    }
    assert(" \"Lcl Rotation\""@ =~= seq![' ', '"'] + "Lcl Rotation"@ + seq!['"']) by {
        reveal_strlit(" \"Lcl Rotation\"");
        reveal_strlit("Lcl Rotation");
    }
    assert("\"Lcl Scaling\""@ =~= seq!['"'] + "Lcl Scaling"@ + seq!['"']) by {
        reveal_strlit("\"Lcl Scaling\"");
        reveal_strlit("Lcl Scaling");
    }
    assert(" \"Lcl Scaling\""@ =~= seq![' ', '"'] + "Lcl Scaling"@ + seq!['"']) by {
        reveal_strlit(" \"Lcl Scaling\"");
        reveal_strlit("Lcl Scaling");
    }
    assert(s8.heads =~= s0.heads + seq![limb_head(bones, bone)]);
    assert(s8.lists =~= s0.lists + Seq::empty());
    assert(s8.properties =~= s0.properties + limb_properties(numbers, bone));
    assert(s8.links =~= s0.links + Seq::empty());
    assert(s8.counts =~= s0.counts + Seq::empty());
}


/// The head of the skin.
pub open spec fn skin_head() -> Head {
    Head { kind: "\tDeformer: "@, id: "1000002"@, rest: " \"Deformer::skin\", \"Skin\" {"@ }
}


proof fn skin_is_read(out: Seq<char>)
    requires
        scanned(out).1.len() == 0,
    ensures
        scanned(fbx::skin_deformer_text(out)).1.len() == 0,
        adds(
            scanned(fbx::skin_deformer_text(out)).0,
            scanned(out).0,
            seq![skin_head()],
            Seq::empty(),
            Seq::empty(),
            Seq::empty(),
            Seq::empty(),
        ),
{
    let step = fbx_step();
    let nothing = Seq::<char>::empty();
    assert(scanned(out) == (scanned(out).0, nothing)) by {
        assert(scanned(out).1 =~= nothing);
    }
    let t0 = out;
    let s0 = scanned(out).0;
    let t1 = t0 + "\tDeformer: 1000002, \"Deformer::skin\", \"Skin\" {\n\t\tVersion: 101\n\t\tLink_DeformAcuracy: 50\n\t}\n"@;
    let s1 = with_line(s0, "\tDeformer: 1000002, \"Deformer::skin\", \"Skin\" {"@);
    assert(s1 == (FbxReading { heads: s0.heads.push(Head { kind: "\tDeformer: "@, id: "1000002"@, rest: " \"Deformer::skin\", \"Skin\" {"@ }), owner: "1000002"@, ..s0 })) by {
        assert("\tDeformer: 1000002, \"Deformer::skin\", \"Skin\" {"@ == "\tDeformer: "@ + ("1000002, \"Deformer::skin\", \"Skin\" {"@)) by {
            reveal_strlit("\tDeformer: 1000002, \"Deformer::skin\", \"Skin\" {");
            reveal_strlit("\tDeformer: ");
            reveal_strlit("1000002, \"Deformer::skin\", \"Skin\" {");
            assert("\tDeformer: 1000002, \"Deformer::skin\", \"Skin\" {"@ =~= "\tDeformer: "@ + "1000002, \"Deformer::skin\", \"Skin\" {"@);
            assert("\tDeformer: 1000002, \"Deformer::skin\", \"Skin\" {"@ =~= "\tDeformer: "@ + ("1000002, \"Deformer::skin\", \"Skin\" {"@));
        }
        deformer_line_is_read(s0, "1000002, \"Deformer::skin\", \"Skin\" {"@);
        assert("1000002, \"Deformer::skin\", \"Skin\" {"@ == "1000002"@ + seq![','] + " \"Deformer::skin\", \"Skin\" {"@) by {
            reveal_strlit("1000002, \"Deformer::skin\", \"Skin\" {");
            reveal_strlit("1000002");
            reveal_strlit(" \"Deformer::skin\", \"Skin\" {");
            assert("1000002, \"Deformer::skin\", \"Skin\" {"@ =~= "1000002"@ + seq![','] + " \"Deformer::skin\", \"Skin\" {"@);
        }
        assert(!"1000002"@.contains(',')) by {
            reveal_strlit("1000002");
        }
        head_is_noted(s0, "\tDeformer: "@, "1000002"@, " \"Deformer::skin\", \"Skin\" {"@);
    }
    let s2 = with_line(s1, "\t\tVersion: 101"@);
    assert(s2 == s1) by {
        assert(is_plain("\t\tVersion: 101"@)) by {
            reveal_strlit("\t\tVersion: 101");
            other_is_plain("\t\tVersion: 101"@, 2, 'V');
        }
        plain_is_skipped(s1, "\t\tVersion: 101"@);
    }
    let s3 = with_line(s2, "\t\tLink_DeformAcuracy: 50"@);
    assert(s3 == s2) by {
        assert(is_plain("\t\tLink_DeformAcuracy: 50"@)) by {
            reveal_strlit("\t\tLink_DeformAcuracy: 50");
            other_is_plain("\t\tLink_DeformAcuracy: 50"@, 2, 'L');
        }
        plain_is_skipped(s2, "\t\tLink_DeformAcuracy: 50"@);
    }
    let s4 = with_line(s3, "\t}"@);
    assert(s4 == s3) by {
        assert(is_plain("\t}"@)) by {
            reveal_strlit("\t}");
            other_is_plain("\t}"@, 1, '}');
        }
        plain_is_skipped(s3, "\t}"@);
    }
    assert(scanned(t1) == (s4, nothing)) by {
        reading::scan_more(t0, "\tDeformer: 1000002, \"Deformer::skin\", \"Skin\" {\n\t\tVersion: 101\n\t\tLink_DeformAcuracy: 50\n\t}\n"@, unread(), step);
        assert("\tDeformer: 1000002, \"Deformer::skin\", \"Skin\" {\n\t\tVersion: 101\n\t\tLink_DeformAcuracy: 50\n\t}\n"@ == "\tDeformer: 1000002, \"Deformer::skin\", \"Skin\" {"@ + seq!['\n'] + ("\t\tVersion: 101"@ + seq!['\n'] + ("\t\tLink_DeformAcuracy: 50"@ + seq!['\n'] + ("\t}"@ + seq!['\n'] + nothing)))) by {
            reveal_strlit("\tDeformer: 1000002, \"Deformer::skin\", \"Skin\" {\n\t\tVersion: 101\n\t\tLink_DeformAcuracy: 50\n\t}\n");
            reveal_strlit("\t\tLink_DeformAcuracy: 50");
            reveal_strlit("\t\tVersion: 101");
            reveal_strlit("\tDeformer: 1000002, \"Deformer::skin\", \"Skin\" {");
            reveal_strlit("\t}");
            assert("\tDeformer: 1000002, \"Deformer::skin\", \"Skin\" {\n\t\tVersion: 101\n\t\tLink_DeformAcuracy: 50\n\t}\n"@ =~= "\tDeformer: 1000002, \"Deformer::skin\", \"Skin\" {"@ + seq!['\n'] + ("\t\tVersion: 101"@ + seq!['\n'] + ("\t\tLink_DeformAcuracy: 50"@ + seq!['\n'] + ("\t}"@ + seq!['\n'] + nothing))));
        }
        assert(!"\tDeformer: 1000002, \"Deformer::skin\", \"Skin\" {"@.contains('\n')) by {
            reveal_strlit("\tDeformer: 1000002, \"Deformer::skin\", \"Skin\" {");
        }
        reading::scan_line(s0, nothing, "\tDeformer: 1000002, \"Deformer::skin\", \"Skin\" {"@, ("\t\tVersion: 101"@ + seq!['\n'] + ("\t\tLink_DeformAcuracy: 50"@ + seq!['\n'] + ("\t}"@ + seq!['\n'] + nothing))), step);
        assert(nothing + "\tDeformer: 1000002, \"Deformer::skin\", \"Skin\" {"@ =~= "\tDeformer: 1000002, \"Deformer::skin\", \"Skin\" {"@);
        assert(!"\t\tVersion: 101"@.contains('\n')) by {
            reveal_strlit("\t\tVersion: 101");
        }
        reading::scan_line(s1, nothing, "\t\tVersion: 101"@, ("\t\tLink_DeformAcuracy: 50"@ + seq!['\n'] + ("\t}"@ + seq!['\n'] + nothing)), step);
        assert(nothing + "\t\tVersion: 101"@ =~= "\t\tVersion: 101"@);
        assert(!"\t\tLink_DeformAcuracy: 50"@.contains('\n')) by {
            reveal_strlit("\t\tLink_DeformAcuracy: 50");
        }
        reading::scan_line(s2, nothing, "\t\tLink_DeformAcuracy: 50"@, ("\t}"@ + seq!['\n'] + nothing), step);
        assert(nothing + "\t\tLink_DeformAcuracy: 50"@ =~= "\t\tLink_DeformAcuracy: 50"@);
        assert(!"\t}"@.contains('\n')) by {
            reveal_strlit("\t}");
        }
        reading::scan_line(s3, nothing, "\t}"@, nothing, step);
        assert(nothing + "\t}"@ =~= "\t}"@);
        reading::scan_nothing(s4, nothing, step);
    }
    assert(fbx::skin_deformer_text(out) == t1);
    assert(s4.heads =~= s0.heads + seq![skin_head()]);
    assert(s4.lists =~= s0.lists + Seq::empty());
    assert(s4.properties =~= s0.properties + Seq::empty());
    assert(s4.links =~= s0.links + Seq::empty());
    assert(s4.counts =~= s0.counts + Seq::empty());
}


/// The head of a cluster: its number and the name of its bone.
pub open spec fn cluster_head(bones: Seq<Bone>, bone: int) -> Head {
    Head {
        kind: "\tDeformer: "@,
        id: text::decimal((fbx::CLUSTER_BASE + bone) as nat),
        rest: " \"SubDeformer::"@ + bones[bone].name@ + "\", \"Cluster\" {"@,
    }
}

/// What a cluster moves: the vertices and their weights, unless there are none.
pub open spec fn moved_lists(owner: Seq<char>, entries: Seq<(int, int)>, weights: Seq<[Decimal; 4]>) -> Seq<
    List,
> {
    if entries.len() == 0 {
        Seq::empty()
    } else {
        seq![
            List {
                owner,
                name: "\t\tIndexes: "@,
                count: declared(entries.len()),
                values: cluster_vertices(entries),
            },
            List {
                owner,
                name: "\t\tWeights: "@,
                count: declared(entries.len()),
                values: cluster_weights(entries, weights),
            },
        ]
    }
}

/// The values of an identity matrix.
pub open spec fn identity_values() -> Seq<Seq<char>> {
    reading::split("1.0,0,0,0,0,1.0,0,0,0,0,1.0,0,0,0,0,1.0"@, ',')
}

/// The bind transforms of a cluster: the mesh at the origin, and the bone.
pub open spec fn bind_lists(owner: Seq<char>, numbers: FbxNumbers, bone: int) -> Seq<List> {
    seq![
        List {
            owner,
            name: "\t\tTransform: "@,
            count: "16 {"@,
            values: identity_values(),
        },
        List {
            owner,
            name: "\t\tTransformLink: "@,
            count: "16 {"@,
            values: decimals(numbers.global_binds@[bone]@),
        },
    ]
}

/// The lists of a cluster.
pub open spec fn cluster_lists(
    numbers: FbxNumbers,
    bone: int,
    entries: Seq<(int, int)>,
) -> Seq<List> {
    let owner = text::decimal((fbx::CLUSTER_BASE + bone) as nat);
    moved_lists(owner, entries, numbers.weights@) + bind_lists(owner, numbers, bone)
}


proof fn cluster_head_is_read(out: Seq<char>, bones: Seq<Bone>, bone: int)
    requires
        scanned(out).1.len() == 0,
        0 <= bone < bones.len(),
        names_fit(bones),
    ensures
        scanned(out + "\tDeformer: "@ + text::decimal((fbx::CLUSTER_BASE + bone) as nat) + ", \"SubDeformer::"@ + bones[bone].name@ + "\", \"Cluster\" {\n\t\tVersion: 100\n\t\tMode: \"Total1\"\n"@).1.len() == 0,
        adds(
            scanned(out + "\tDeformer: "@ + text::decimal((fbx::CLUSTER_BASE + bone) as nat) + ", \"SubDeformer::"@ + bones[bone].name@ + "\", \"Cluster\" {\n\t\tVersion: 100\n\t\tMode: \"Total1\"\n"@).0,
            scanned(out).0,
            seq![cluster_head(bones, bone)],
            Seq::empty(),
            Seq::empty(),
            Seq::empty(),
            Seq::empty(),
        ),
        scanned(out + "\tDeformer: "@ + text::decimal((fbx::CLUSTER_BASE + bone) as nat) + ", \"SubDeformer::"@ + bones[bone].name@ + "\", \"Cluster\" {\n\t\tVersion: 100\n\t\tMode: \"Total1\"\n"@).0.owner == text::decimal((fbx::CLUSTER_BASE + bone) as nat),
{
    let step = fbx_step();
    let nothing = Seq::<char>::empty();
    assert(scanned(out) == (scanned(out).0, nothing)) by {
        assert(scanned(out).1 =~= nothing);
    }
    assert(!bones[bone].name@.contains('\n'));
    reading::decimal_lacks((fbx::CLUSTER_BASE + bone) as nat, '\n');
    let t0 = out;
    let s0 = scanned(out).0;
    let t1 = t0 + "\tDeformer: "@;
    assert(scanned(t1) == (s0, "\tDeformer: "@)) by {
        reading::scan_more(t0, "\tDeformer: "@, unread(), step);
        reveal_strlit("\tDeformer: ");
        reading::scan_plain(s0, nothing, "\tDeformer: "@, step);
        assert(nothing + "\tDeformer: "@ =~= "\tDeformer: "@);
    }
    let t2 = t1 + text::decimal((fbx::CLUSTER_BASE + bone) as nat);
    assert(scanned(t2) == (s0, "\tDeformer: "@ + text::decimal((fbx::CLUSTER_BASE + bone) as nat))) by {
        reading::scan_more(t1, text::decimal((fbx::CLUSTER_BASE + bone) as nat), unread(), step);
        reading::scan_plain(s0, "\tDeformer: "@, text::decimal((fbx::CLUSTER_BASE + bone) as nat), step);
    }
    let t3 = t2 + ", \"SubDeformer::"@;
    assert(scanned(t3) == (s0, "\tDeformer: "@ + text::decimal((fbx::CLUSTER_BASE + bone) as nat) + ", \"SubDeformer::"@)) by {
        reading::scan_more(t2, ", \"SubDeformer::"@, unread(), step);
        reveal_strlit(", \"SubDeformer::");
        reading::scan_plain(s0, "\tDeformer: "@ + text::decimal((fbx::CLUSTER_BASE + bone) as nat), ", \"SubDeformer::"@, step);
    }
    let t4 = t3 + bones[bone].name@;
    assert(scanned(t4) == (s0, "\tDeformer: "@ + text::decimal((fbx::CLUSTER_BASE + bone) as nat) + ", \"SubDeformer::"@ + bones[bone].name@)) by {
        reading::scan_more(t3, bones[bone].name@, unread(), step);
        reading::scan_plain(s0, "\tDeformer: "@ + text::decimal((fbx::CLUSTER_BASE + bone) as nat) + ", \"SubDeformer::"@, bones[bone].name@, step);
    }
    let t5 = t4 + "\", \"Cluster\" {\n\t\tVersion: 100\n\t\tMode: \"Total1\"\n"@;
    let s1 = with_line(s0, "\tDeformer: "@ + text::decimal((fbx::CLUSTER_BASE + bone) as nat) + ", \"SubDeformer::"@ + bones[bone].name@ + "\", \"Cluster\" {"@);
    assert(s1 == (FbxReading { heads: s0.heads.push(Head { kind: "\tDeformer: "@, id: text::decimal((fbx::CLUSTER_BASE + bone) as nat), rest: " \"SubDeformer::"@ + bones[bone].name@ + "\", \"Cluster\" {"@ }), owner: text::decimal((fbx::CLUSTER_BASE + bone) as nat), ..s0 })) by {
        assert("\tDeformer: "@ + text::decimal((fbx::CLUSTER_BASE + bone) as nat) + ", \"SubDeformer::"@ + bones[bone].name@ + "\", \"Cluster\" {"@ == "\tDeformer: "@ + (text::decimal((fbx::CLUSTER_BASE + bone) as nat) + ", \"SubDeformer::"@ + bones[bone].name@ + "\", \"Cluster\" {"@)) by {
            assert("\tDeformer: "@ + text::decimal((fbx::CLUSTER_BASE + bone) as nat) + ", \"SubDeformer::"@ + bones[bone].name@ + "\", \"Cluster\" {"@ =~= "\tDeformer: "@ + (text::decimal((fbx::CLUSTER_BASE + bone) as nat) + ", \"SubDeformer::"@ + bones[bone].name@ + "\", \"Cluster\" {"@));
        }
        deformer_line_is_read(s0, text::decimal((fbx::CLUSTER_BASE + bone) as nat) + ", \"SubDeformer::"@ + bones[bone].name@ + "\", \"Cluster\" {"@);
        assert(text::decimal((fbx::CLUSTER_BASE + bone) as nat) + ", \"SubDeformer::"@ + bones[bone].name@ + "\", \"Cluster\" {"@ == text::decimal((fbx::CLUSTER_BASE + bone) as nat) + seq![','] + (" \"SubDeformer::"@ + bones[bone].name@ + "\", \"Cluster\" {"@)) by {
            reveal_strlit(", \"SubDeformer::");
            reveal_strlit(" \"SubDeformer::");
            assert(", \"SubDeformer::"@ =~= seq![','] + " \"SubDeformer::"@);
            assert(text::decimal((fbx::CLUSTER_BASE + bone) as nat) + (seq![','] + " \"SubDeformer::"@) + bones[bone].name@ + "\", \"Cluster\" {"@ =~= text::decimal((fbx::CLUSTER_BASE + bone) as nat) + seq![','] + (" \"SubDeformer::"@ + bones[bone].name@ + "\", \"Cluster\" {"@));
        }
        reading::decimal_lacks((fbx::CLUSTER_BASE + bone) as nat, ',');
        head_is_noted(s0, "\tDeformer: "@, text::decimal((fbx::CLUSTER_BASE + bone) as nat), " \"SubDeformer::"@ + bones[bone].name@ + "\", \"Cluster\" {"@);
    }
    let s2 = with_line(s1, "\t\tVersion: 100"@);
    assert(s2 == s1) by {
        assert(is_plain("\t\tVersion: 100"@)) by {
            reveal_strlit("\t\tVersion: 100");
            other_is_plain("\t\tVersion: 100"@, 2, 'V');
        }
        plain_is_skipped(s1, "\t\tVersion: 100"@);
    }
    let s3 = with_line(s2, "\t\tMode: \"Total1\""@);
    assert(s3 == s2) by {
        assert(is_plain("\t\tMode: \"Total1\""@)) by {
            reveal_strlit("\t\tMode: \"Total1\"");
            other_is_plain("\t\tMode: \"Total1\""@, 2, 'M');
        }
        plain_is_skipped(s2, "\t\tMode: \"Total1\""@);
    }
    assert(scanned(t5) == (s3, nothing)) by {
        reading::scan_more(t4, "\", \"Cluster\" {\n\t\tVersion: 100\n\t\tMode: \"Total1\"\n"@, unread(), step);
        assert("\", \"Cluster\" {\n\t\tVersion: 100\n\t\tMode: \"Total1\"\n"@ == "\", \"Cluster\" {"@ + seq!['\n'] + ("\t\tVersion: 100"@ + seq!['\n'] + ("\t\tMode: \"Total1\""@ + seq!['\n'] + nothing))) by {
            reveal_strlit("\", \"Cluster\" {\n\t\tVersion: 100\n\t\tMode: \"Total1\"\n");
            reveal_strlit("\t\tMode: \"Total1\"");
            reveal_strlit("\t\tVersion: 100");
            reveal_strlit("\", \"Cluster\" {");
            assert("\", \"Cluster\" {\n\t\tVersion: 100\n\t\tMode: \"Total1\"\n"@ =~= "\", \"Cluster\" {"@ + seq!['\n'] + ("\t\tVersion: 100"@ + seq!['\n'] + ("\t\tMode: \"Total1\""@ + seq!['\n'] + nothing)));
        }
        assert(!"\", \"Cluster\" {"@.contains('\n')) by {
            reveal_strlit("\", \"Cluster\" {");
        }
        reading::scan_line(s0, "\tDeformer: "@ + text::decimal((fbx::CLUSTER_BASE + bone) as nat) + ", \"SubDeformer::"@ + bones[bone].name@, "\", \"Cluster\" {"@, ("\t\tVersion: 100"@ + seq!['\n'] + ("\t\tMode: \"Total1\""@ + seq!['\n'] + nothing)), step);
        assert(!"\t\tVersion: 100"@.contains('\n')) by {
            reveal_strlit("\t\tVersion: 100");
        }
        reading::scan_line(s1, nothing, "\t\tVersion: 100"@, ("\t\tMode: \"Total1\""@ + seq!['\n'] + nothing), step);
        assert(nothing + "\t\tVersion: 100"@ =~= "\t\tVersion: 100"@);
        assert(!"\t\tMode: \"Total1\""@.contains('\n')) by {
            reveal_strlit("\t\tMode: \"Total1\"");
        }
        reading::scan_line(s2, nothing, "\t\tMode: \"Total1\""@, nothing, step);
        assert(nothing + "\t\tMode: \"Total1\""@ =~= "\t\tMode: \"Total1\""@);
        reading::scan_nothing(s3, nothing, step);
    }
    assert(out + "\tDeformer: "@ + text::decimal((fbx::CLUSTER_BASE + bone) as nat) + ", \"SubDeformer::"@ + bones[bone].name@ + "\", \"Cluster\" {\n\t\tVersion: 100\n\t\tMode: \"Total1\"\n"@ == t5);
    assert(s3.heads =~= s0.heads + seq![cluster_head(bones, bone)]);
    assert(s3.lists =~= s0.lists + Seq::empty());
    assert(s3.properties =~= s0.properties + Seq::empty());
    assert(s3.links =~= s0.links + Seq::empty());
    assert(s3.counts =~= s0.counts + Seq::empty());
}

proof fn moved_lists_are_read(out: Seq<char>, entries: Seq<(int, int)>, weights: Seq<[Decimal; 4]>)
    requires
        scanned(out).1.len() == 0,
        entries.len() > 0,
        weights_are_numbers(weights),
        entries_in_range(entries, weights.len()),
    ensures
        scanned(fbx::cluster_lists_text(out, entries, weights)).1.len() == 0,
        adds(
            scanned(fbx::cluster_lists_text(out, entries, weights)).0,
            scanned(out).0,
            Seq::empty(),
            moved_lists(scanned(out).0.owner, entries, weights),
            Seq::empty(),
            Seq::empty(),
            Seq::empty(),
        ),
        scanned(fbx::cluster_lists_text(out, entries, weights)).0.owner == scanned(out).0.owner,
{
    let step = fbx_step();
    let nothing = Seq::<char>::empty();
    assert(scanned(out) == (scanned(out).0, nothing)) by {
        assert(scanned(out).1 =~= nothing);
    }
    reading::decimal_lacks(entries.len(), '\n');
    clusters_are_read(entries, weights);
    let t0 = out;
    let s0 = scanned(out).0;
    let t1 = t0 + "\t\tIndexes: *"@;
    assert(scanned(t1) == (s0, "\t\tIndexes: *"@)) by {
        reading::scan_more(t0, "\t\tIndexes: *"@, unread(), step);
        reveal_strlit("\t\tIndexes: *");
        reading::scan_plain(s0, nothing, "\t\tIndexes: *"@, step);
        assert(nothing + "\t\tIndexes: *"@ =~= "\t\tIndexes: *"@);
    }
    let t2 = t1 + text::decimal(entries.len());
    assert(scanned(t2) == (s0, "\t\tIndexes: *"@ + text::decimal(entries.len()))) by {
        reading::scan_more(t1, text::decimal(entries.len()), unread(), step);
        reading::scan_plain(s0, "\t\tIndexes: *"@, text::decimal(entries.len()), step);
    }
    let t3 = t2 + " {\n\t\t\ta: "@;
    let s1 = with_line(s0, "\t\tIndexes: *"@ + text::decimal(entries.len()) + " {"@);
    assert(s1 == (FbxReading { name: "\t\tIndexes: "@, count: text::decimal(entries.len()) + " {"@, ..s0 })) by {
        assert(is_plain("\t\tIndexes: "@)) by {
            reveal_strlit("\t\tIndexes: ");
            other_is_plain("\t\tIndexes: "@, 2, 'I');
        }
        assert("\t\tIndexes: *"@ + text::decimal(entries.len()) + " {"@ == "\t\tIndexes: "@ + seq!['*'] + (text::decimal(entries.len()) + " {"@)) by {
            reveal_strlit("\t\tIndexes: *");
            reveal_strlit("\t\tIndexes: ");
            assert("\t\tIndexes: *"@ =~= "\t\tIndexes: "@ + seq!['*']);
            assert("\t\tIndexes: "@ + seq!['*'] + text::decimal(entries.len()) + " {"@ =~= "\t\tIndexes: "@ + seq!['*'] + (text::decimal(entries.len()) + " {"@));
        }
        assert(!(text::decimal(entries.len()) + " {"@).contains('*')) by {
            reveal_strlit(" {");
            reading::decimal_lacks(entries.len(), '*');
            reading::sum_lacks(text::decimal(entries.len()), " {"@, '*');
        }
        name_is_noted(s0, "\t\tIndexes: "@, text::decimal(entries.len()) + " {"@);
    }
    assert(scanned(t3) == (s1, "\t\t\ta: "@)) by {
        reading::scan_more(t2, " {\n\t\t\ta: "@, unread(), step);
        assert(" {\n\t\t\ta: "@ == " {"@ + seq!['\n'] + "\t\t\ta: "@) by {
            reveal_strlit(" {\n\t\t\ta: ");
            reveal_strlit("\t\t\ta: ");
            reveal_strlit(" {");
            assert(" {\n\t\t\ta: "@ =~= " {"@ + seq!['\n'] + "\t\t\ta: "@);
        }
        assert(!" {"@.contains('\n')) by {
            reveal_strlit(" {");
        }
        reading::scan_line(s0, "\t\tIndexes: *"@ + text::decimal(entries.len()), " {"@, "\t\t\ta: "@, step);
        assert(!"\t\t\ta: "@.contains('\n')) by {
            reveal_strlit("\t\t\ta: ");
        }
        reading::scan_plain(s1, nothing, "\t\t\ta: "@, step);
        assert(nothing + "\t\t\ta: "@ =~= "\t\t\ta: "@);
    }
    let t4 = t3 + fbx::cluster_indices_text(entries);
    assert(scanned(t4) == (s1, "\t\t\ta: "@ + fbx::cluster_indices_text(entries))) by {
        reading::scan_more(t3, fbx::cluster_indices_text(entries), unread(), step);
        reading::scan_plain(s1, "\t\t\ta: "@, fbx::cluster_indices_text(entries), step);
    }
    let t5 = t4 + "\n\t\t}\n\t\tWeights: *"@;
    let s2 = with_line(s1, "\t\t\ta: "@ + fbx::cluster_indices_text(entries));
    assert(s2 == with_values(s1, fbx::cluster_indices_text(entries))) by {
        list_line_is_read(s1, fbx::cluster_indices_text(entries));
    }
    let s3 = with_line(s2, "\t\t}"@);
    assert(s3 == s2) by {
        assert(is_plain("\t\t}"@)) by {
            reveal_strlit("\t\t}");
            other_is_plain("\t\t}"@, 2, '}');
        }
        plain_is_skipped(s2, "\t\t}"@);
    }
    assert(scanned(t5) == (s3, "\t\tWeights: *"@)) by {
        reading::scan_more(t4, "\n\t\t}\n\t\tWeights: *"@, unread(), step);
        assert("\n\t\t}\n\t\tWeights: *"@ == nothing + seq!['\n'] + ("\t\t}"@ + seq!['\n'] + "\t\tWeights: *"@)) by {
            reveal_strlit("\n\t\t}\n\t\tWeights: *");
            reveal_strlit("\t\tWeights: *");
            reveal_strlit("\t\t}");
            assert("\n\t\t}\n\t\tWeights: *"@ =~= nothing + seq!['\n'] + ("\t\t}"@ + seq!['\n'] + "\t\tWeights: *"@));
        }
        reading::scan_line(s1, "\t\t\ta: "@ + fbx::cluster_indices_text(entries), nothing, ("\t\t}"@ + seq!['\n'] + "\t\tWeights: *"@), step);
        assert("\t\t\ta: "@ + fbx::cluster_indices_text(entries) + nothing =~= "\t\t\ta: "@ + fbx::cluster_indices_text(entries));
        assert(!"\t\t}"@.contains('\n')) by {
            reveal_strlit("\t\t}");
        }
        reading::scan_line(s2, nothing, "\t\t}"@, "\t\tWeights: *"@, step);
        assert(nothing + "\t\t}"@ =~= "\t\t}"@);
        assert(!"\t\tWeights: *"@.contains('\n')) by {
            reveal_strlit("\t\tWeights: *");
        }
        reading::scan_plain(s3, nothing, "\t\tWeights: *"@, step);
        assert(nothing + "\t\tWeights: *"@ =~= "\t\tWeights: *"@);
    }
    let t6 = t5 + text::decimal(entries.len());
    assert(scanned(t6) == (s3, "\t\tWeights: *"@ + text::decimal(entries.len()))) by {
        reading::scan_more(t5, text::decimal(entries.len()), unread(), step);
        reading::scan_plain(s3, "\t\tWeights: *"@, text::decimal(entries.len()), step);
    }
    let t7 = t6 + " {\n\t\t\ta: "@;
    let s4 = with_line(s3, "\t\tWeights: *"@ + text::decimal(entries.len()) + " {"@);
    assert(s4 == (FbxReading { name: "\t\tWeights: "@, count: text::decimal(entries.len()) + " {"@, ..s3 })) by {
        assert(is_plain("\t\tWeights: "@)) by {
            reveal_strlit("\t\tWeights: ");
            other_is_plain("\t\tWeights: "@, 2, 'W');
        }
        assert("\t\tWeights: *"@ + text::decimal(entries.len()) + " {"@ == "\t\tWeights: "@ + seq!['*'] + (text::decimal(entries.len()) + " {"@)) by {
            reveal_strlit("\t\tWeights: *");
            reveal_strlit("\t\tWeights: ");
            assert("\t\tWeights: *"@ =~= "\t\tWeights: "@ + seq!['*']);
            assert("\t\tWeights: "@ + seq!['*'] + text::decimal(entries.len()) + " {"@ =~= "\t\tWeights: "@ + seq!['*'] + (text::decimal(entries.len()) + " {"@));
        }
        assert(!(text::decimal(entries.len()) + " {"@).contains('*')) by {
            reveal_strlit(" {");
            reading::decimal_lacks(entries.len(), '*');
            reading::sum_lacks(text::decimal(entries.len()), " {"@, '*');
        }
        name_is_noted(s3, "\t\tWeights: "@, text::decimal(entries.len()) + " {"@);
    }
    assert(scanned(t7) == (s4, "\t\t\ta: "@)) by {
        reading::scan_more(t6, " {\n\t\t\ta: "@, unread(), step);
        assert(" {\n\t\t\ta: "@ == " {"@ + seq!['\n'] + "\t\t\ta: "@) by {
            reveal_strlit(" {\n\t\t\ta: ");
            reveal_strlit("\t\t\ta: ");
            reveal_strlit(" {");
            assert(" {\n\t\t\ta: "@ =~= " {"@ + seq!['\n'] + "\t\t\ta: "@);
        }
        assert(!" {"@.contains('\n')) by {
            reveal_strlit(" {");
        }
        reading::scan_line(s3, "\t\tWeights: *"@ + text::decimal(entries.len()), " {"@, "\t\t\ta: "@, step);
        assert(!"\t\t\ta: "@.contains('\n')) by {
            reveal_strlit("\t\t\ta: ");
        }
        reading::scan_plain(s4, nothing, "\t\t\ta: "@, step);
        assert(nothing + "\t\t\ta: "@ =~= "\t\t\ta: "@);
    }
    let t8 = t7 + fbx::cluster_weights_text(entries, weights);
    assert(scanned(t8) == (s4, "\t\t\ta: "@ + fbx::cluster_weights_text(entries, weights))) by {
        reading::scan_more(t7, fbx::cluster_weights_text(entries, weights), unread(), step);
        reading::scan_plain(s4, "\t\t\ta: "@, fbx::cluster_weights_text(entries, weights), step);
    }
    let t9 = t8 + "\n\t\t}\n"@;
    let s5 = with_line(s4, "\t\t\ta: "@ + fbx::cluster_weights_text(entries, weights));
    assert(s5 == with_values(s4, fbx::cluster_weights_text(entries, weights))) by {
        list_line_is_read(s4, fbx::cluster_weights_text(entries, weights));
    }
    let s6 = with_line(s5, "\t\t}"@);
    assert(s6 == s5) by {
        assert(is_plain("\t\t}"@)) by {
            reveal_strlit("\t\t}");
            other_is_plain("\t\t}"@, 2, '}');
        }
        plain_is_skipped(s5, "\t\t}"@);
    }
    assert(scanned(t9) == (s6, nothing)) by {
        reading::scan_more(t8, "\n\t\t}\n"@, unread(), step);
        assert("\n\t\t}\n"@ == nothing + seq!['\n'] + ("\t\t}"@ + seq!['\n'] + nothing)) by {
            reveal_strlit("\n\t\t}\n");
            reveal_strlit("\t\t}");
            assert("\n\t\t}\n"@ =~= nothing + seq!['\n'] + ("\t\t}"@ + seq!['\n'] + nothing));
        }
        reading::scan_line(s4, "\t\t\ta: "@ + fbx::cluster_weights_text(entries, weights), nothing, ("\t\t}"@ + seq!['\n'] + nothing), step);
        assert("\t\t\ta: "@ + fbx::cluster_weights_text(entries, weights) + nothing =~= "\t\t\ta: "@ + fbx::cluster_weights_text(entries, weights));
        assert(!"\t\t}"@.contains('\n')) by {
            reveal_strlit("\t\t}");
        }
        reading::scan_line(s5, nothing, "\t\t}"@, nothing, step);
        assert(nothing + "\t\t}"@ =~= "\t\t}"@);
        reading::scan_nothing(s6, nothing, step);
    }
    assert(fbx::cluster_lists_text(out, entries, weights) == t9);
    assert(s6.heads =~= s0.heads + Seq::empty());
    assert(s6.lists =~= s0.lists + moved_lists(s0.owner, entries, weights));
    assert(s6.properties =~= s0.properties + Seq::empty());
    assert(s6.links =~= s0.links + Seq::empty());
    assert(s6.counts =~= s0.counts + Seq::empty());
}

proof fn bind_lists_are_read(out: Seq<char>, numbers: FbxNumbers, bone: int)
    requires
        scanned(out).1.len() == 0,
        are_numbers(numbers.global_binds@[bone]@),
    ensures
        scanned(out + "\t\tTransform: *16 {\n\t\t\ta: 1.0,0,0,0,0,1.0,0,0,0,0,1.0,0,0,0,0,1.0\n\t\t}\n\t\tTransformLink: *16 {\n\t\t\ta: "@ + fbx::decimals_text(numbers.global_binds@[bone]@) + "\n\t\t}\n\t}\n"@).1.len() == 0,
        adds(
            scanned(out + "\t\tTransform: *16 {\n\t\t\ta: 1.0,0,0,0,0,1.0,0,0,0,0,1.0,0,0,0,0,1.0\n\t\t}\n\t\tTransformLink: *16 {\n\t\t\ta: "@ + fbx::decimals_text(numbers.global_binds@[bone]@) + "\n\t\t}\n\t}\n"@).0,
            scanned(out).0,
            Seq::empty(),
            bind_lists(scanned(out).0.owner, numbers, bone),
            Seq::empty(),
            Seq::empty(),
            Seq::empty(),
        ),
{
    let step = fbx_step();
    let nothing = Seq::<char>::empty();
    assert(scanned(out) == (scanned(out).0, nothing)) by {
        assert(scanned(out).1 =~= nothing);
    }
    decimals_are_read(numbers.global_binds@[bone]@);
    let t0 = out;
    let s0 = scanned(out).0;
    let t1 = t0 + "\t\tTransform: *16 {\n\t\t\ta: 1.0,0,0,0,0,1.0,0,0,0,0,1.0,0,0,0,0,1.0\n\t\t}\n\t\tTransformLink: *16 {\n\t\t\ta: "@;
    let s1 = with_line(s0, "\t\tTransform: *16 {"@);
    assert(s1 == (FbxReading { name: "\t\tTransform: "@, count: "16 {"@, ..s0 })) by {
        assert(is_plain("\t\tTransform: "@)) by {
            reveal_strlit("\t\tTransform: ");
            other_is_plain("\t\tTransform: "@, 2, 'T');
        }
        assert("\t\tTransform: *16 {"@ == "\t\tTransform: "@ + seq!['*'] + "16 {"@) by {
            reveal_strlit("\t\tTransform: *16 {");
            reveal_strlit("\t\tTransform: ");
            reveal_strlit("16 {");
            assert("\t\tTransform: *16 {"@ =~= "\t\tTransform: "@ + seq!['*'] + "16 {"@);
        }
        assert(!"16 {"@.contains('*')) by {
            reveal_strlit("16 {");
        }
        name_is_noted(s0, "\t\tTransform: "@, "16 {"@);
    }
    let s2 = with_line(s1, "\t\t\ta: 1.0,0,0,0,0,1.0,0,0,0,0,1.0,0,0,0,0,1.0"@);
    assert(s2 == with_values(s1, "1.0,0,0,0,0,1.0,0,0,0,0,1.0,0,0,0,0,1.0"@)) by {
        assert("\t\t\ta: 1.0,0,0,0,0,1.0,0,0,0,0,1.0,0,0,0,0,1.0"@ == "\t\t\ta: "@ + ("1.0,0,0,0,0,1.0,0,0,0,0,1.0,0,0,0,0,1.0"@)) by {
            reveal_strlit("\t\t\ta: 1.0,0,0,0,0,1.0,0,0,0,0,1.0,0,0,0,0,1.0");
            reveal_strlit("\t\t\ta: ");
            reveal_strlit("1.0,0,0,0,0,1.0,0,0,0,0,1.0,0,0,0,0,1.0");
            assert("\t\t\ta: 1.0,0,0,0,0,1.0,0,0,0,0,1.0,0,0,0,0,1.0"@ =~= "\t\t\ta: "@ + "1.0,0,0,0,0,1.0,0,0,0,0,1.0,0,0,0,0,1.0"@);
            assert("\t\t\ta: 1.0,0,0,0,0,1.0,0,0,0,0,1.0,0,0,0,0,1.0"@ =~= "\t\t\ta: "@ + ("1.0,0,0,0,0,1.0,0,0,0,0,1.0,0,0,0,0,1.0"@));
        }
        list_line_is_read(s1, "1.0,0,0,0,0,1.0,0,0,0,0,1.0,0,0,0,0,1.0"@);
    }
    let s3 = with_line(s2, "\t\t}"@);
    assert(s3 == s2) by {
        assert(is_plain("\t\t}"@)) by {
            reveal_strlit("\t\t}");
            other_is_plain("\t\t}"@, 2, '}');
        }
        plain_is_skipped(s2, "\t\t}"@);
    }
    let s4 = with_line(s3, "\t\tTransformLink: *16 {"@);
    assert(s4 == (FbxReading { name: "\t\tTransformLink: "@, count: "16 {"@, ..s3 })) by {
        assert(is_plain("\t\tTransformLink: "@)) by {
            reveal_strlit("\t\tTransformLink: ");
            other_is_plain("\t\tTransformLink: "@, 2, 'T');
        }
        assert("\t\tTransformLink: *16 {"@ == "\t\tTransformLink: "@ + seq!['*'] + "16 {"@) by {
            reveal_strlit("\t\tTransformLink: *16 {");
            reveal_strlit("\t\tTransformLink: ");
            reveal_strlit("16 {");
            assert("\t\tTransformLink: *16 {"@ =~= "\t\tTransformLink: "@ + seq!['*'] + "16 {"@);
        }
        assert(!"16 {"@.contains('*')) by {
            reveal_strlit("16 {");
        }
        name_is_noted(s3, "\t\tTransformLink: "@, "16 {"@);
    }
    assert(scanned(t1) == (s4, "\t\t\ta: "@)) by {
        reading::scan_more(t0, "\t\tTransform: *16 {\n\t\t\ta: 1.0,0,0,0,0,1.0,0,0,0,0,1.0,0,0,0,0,1.0\n\t\t}\n\t\tTransformLink: *16 {\n\t\t\ta: "@, unread(), step);
        assert("\t\tTransform: *16 {\n\t\t\ta: 1.0,0,0,0,0,1.0,0,0,0,0,1.0,0,0,0,0,1.0\n\t\t}\n\t\tTransformLink: *16 {\n\t\t\ta: "@ == "\t\tTransform: *16 {"@ + seq!['\n'] + ("\t\t\ta: 1.0,0,0,0,0,1.0,0,0,0,0,1.0,0,0,0,0,1.0"@ + seq!['\n'] + ("\t\t}"@ + seq!['\n'] + ("\t\tTransformLink: *16 {"@ + seq!['\n'] + "\t\t\ta: "@)))) by {
            reveal_strlit("\t\tTransform: *16 {\n\t\t\ta: 1.0,0,0,0,0,1.0,0,0,0,0,1.0,0,0,0,0,1.0\n\t\t}\n\t\tTransformLink: *16 {\n\t\t\ta: ");
            reveal_strlit("\t\t\ta: ");
            reveal_strlit("\t\t\ta: 1.0,0,0,0,0,1.0,0,0,0,0,1.0,0,0,0,0,1.0");
            reveal_strlit("\t\tTransform: *16 {");
            reveal_strlit("\t\tTransformLink: *16 {");
            reveal_strlit("\t\t}");
            assert("\t\tTransform: *16 {\n\t\t\ta: 1.0,0,0,0,0,1.0,0,0,0,0,1.0,0,0,0,0,1.0\n\t\t}\n\t\tTransformLink: *16 {\n\t\t\ta: "@ =~= "\t\tTransform: *16 {"@ + seq!['\n'] + ("\t\t\ta: 1.0,0,0,0,0,1.0,0,0,0,0,1.0,0,0,0,0,1.0"@ + seq!['\n'] + ("\t\t}"@ + seq!['\n'] + ("\t\tTransformLink: *16 {"@ + seq!['\n'] + "\t\t\ta: "@))));
        }
        assert(!"\t\tTransform: *16 {"@.contains('\n')) by {
            reveal_strlit("\t\tTransform: *16 {");
        }
        reading::scan_line(s0, nothing, "\t\tTransform: *16 {"@, ("\t\t\ta: 1.0,0,0,0,0,1.0,0,0,0,0,1.0,0,0,0,0,1.0"@ + seq!['\n'] + ("\t\t}"@ + seq!['\n'] + ("\t\tTransformLink: *16 {"@ + seq!['\n'] + "\t\t\ta: "@))), step);
        assert(nothing + "\t\tTransform: *16 {"@ =~= "\t\tTransform: *16 {"@);
        assert(!"\t\t\ta: 1.0,0,0,0,0,1.0,0,0,0,0,1.0,0,0,0,0,1.0"@.contains('\n')) by {
            reveal_strlit("\t\t\ta: 1.0,0,0,0,0,1.0,0,0,0,0,1.0,0,0,0,0,1.0");
        }
        reading::scan_line(s1, nothing, "\t\t\ta: 1.0,0,0,0,0,1.0,0,0,0,0,1.0,0,0,0,0,1.0"@, ("\t\t}"@ + seq!['\n'] + ("\t\tTransformLink: *16 {"@ + seq!['\n'] + "\t\t\ta: "@)), step);
        assert(nothing + "\t\t\ta: 1.0,0,0,0,0,1.0,0,0,0,0,1.0,0,0,0,0,1.0"@ =~= "\t\t\ta: 1.0,0,0,0,0,1.0,0,0,0,0,1.0,0,0,0,0,1.0"@);
        assert(!"\t\t}"@.contains('\n')) by {
            reveal_strlit("\t\t}");
        }
        reading::scan_line(s2, nothing, "\t\t}"@, ("\t\tTransformLink: *16 {"@ + seq!['\n'] + "\t\t\ta: "@), step);
        assert(nothing + "\t\t}"@ =~= "\t\t}"@);
        assert(!"\t\tTransformLink: *16 {"@.contains('\n')) by {
            reveal_strlit("\t\tTransformLink: *16 {");
        }
        reading::scan_line(s3, nothing, "\t\tTransformLink: *16 {"@, "\t\t\ta: "@, step);
        assert(nothing + "\t\tTransformLink: *16 {"@ =~= "\t\tTransformLink: *16 {"@);
        assert(!"\t\t\ta: "@.contains('\n')) by {
            reveal_strlit("\t\t\ta: ");
        }
        reading::scan_plain(s4, nothing, "\t\t\ta: "@, step);
        assert(nothing + "\t\t\ta: "@ =~= "\t\t\ta: "@);
    }
    let t2 = t1 + fbx::decimals_text(numbers.global_binds@[bone]@);
    assert(scanned(t2) == (s4, "\t\t\ta: "@ + fbx::decimals_text(numbers.global_binds@[bone]@))) by {
        reading::scan_more(t1, fbx::decimals_text(numbers.global_binds@[bone]@), unread(), step);
        reading::scan_plain(s4, "\t\t\ta: "@, fbx::decimals_text(numbers.global_binds@[bone]@), step);
    }
    let t3 = t2 + "\n\t\t}\n\t}\n"@;
    let s5 = with_line(s4, "\t\t\ta: "@ + fbx::decimals_text(numbers.global_binds@[bone]@));
    assert(s5 == with_values(s4, fbx::decimals_text(numbers.global_binds@[bone]@))) by {
        list_line_is_read(s4, fbx::decimals_text(numbers.global_binds@[bone]@));
    }
    let s6 = with_line(s5, "\t\t}"@);
    assert(s6 == s5) by {
        assert(is_plain("\t\t}"@)) by {
            reveal_strlit("\t\t}");
            other_is_plain("\t\t}"@, 2, '}');
        }
        plain_is_skipped(s5, "\t\t}"@);
    }
    let s7 = with_line(s6, "\t}"@);
    assert(s7 == s6) by {
        assert(is_plain("\t}"@)) by {
            reveal_strlit("\t}");
            other_is_plain("\t}"@, 1, '}');
        }
        plain_is_skipped(s6, "\t}"@);
    }
    assert(scanned(t3) == (s7, nothing)) by {
        reading::scan_more(t2, "\n\t\t}\n\t}\n"@, unread(), step);
        assert("\n\t\t}\n\t}\n"@ == nothing + seq!['\n'] + ("\t\t}"@ + seq!['\n'] + ("\t}"@ + seq!['\n'] + nothing))) by {
            reveal_strlit("\n\t\t}\n\t}\n");
            reveal_strlit("\t\t}");
            reveal_strlit("\t}");
            assert("\n\t\t}\n\t}\n"@ =~= nothing + seq!['\n'] + ("\t\t}"@ + seq!['\n'] + ("\t}"@ + seq!['\n'] + nothing)));
        }
        reading::scan_line(s4, "\t\t\ta: "@ + fbx::decimals_text(numbers.global_binds@[bone]@), nothing, ("\t\t}"@ + seq!['\n'] + ("\t}"@ + seq!['\n'] + nothing)), step);
        assert("\t\t\ta: "@ + fbx::decimals_text(numbers.global_binds@[bone]@) + nothing =~= "\t\t\ta: "@ + fbx::decimals_text(numbers.global_binds@[bone]@));
        assert(!"\t\t}"@.contains('\n')) by {
            reveal_strlit("\t\t}");
        }
        reading::scan_line(s5, nothing, "\t\t}"@, ("\t}"@ + seq!['\n'] + nothing), step);
        assert(nothing + "\t\t}"@ =~= "\t\t}"@);
        assert(!"\t}"@.contains('\n')) by {
            reveal_strlit("\t}");
        }
        reading::scan_line(s6, nothing, "\t}"@, nothing, step);
        assert(nothing + "\t}"@ =~= "\t}"@);
        reading::scan_nothing(s7, nothing, step);
    }
    assert(out + "\t\tTransform: *16 {\n\t\t\ta: 1.0,0,0,0,0,1.0,0,0,0,0,1.0,0,0,0,0,1.0\n\t\t}\n\t\tTransformLink: *16 {\n\t\t\ta: "@ + fbx::decimals_text(numbers.global_binds@[bone]@) + "\n\t\t}\n\t}\n"@ == t3);
    assert(s7.heads =~= s0.heads + Seq::empty());
    assert(s7.lists =~= s0.lists + bind_lists(s0.owner, numbers, bone));
    assert(s7.properties =~= s0.properties + Seq::empty());
    assert(s7.links =~= s0.links + Seq::empty());
    assert(s7.counts =~= s0.counts + Seq::empty());
}


proof fn cluster_is_read(
    out: Seq<char>,
    bones: Seq<Bone>,
    numbers: FbxNumbers,
    bone: int,
    entries: Seq<(int, int)>,
)
    requires
        scanned(out).1.len() == 0,
        0 <= bone < bones.len(),
        names_fit(bones),
        bone_numbers_fit(numbers, bones.len()),
        weights_are_numbers(numbers.weights@),
        entries_in_range(entries, numbers.weights@.len()),
    ensures
        scanned(fbx::cluster_text(out, bones, numbers, bone, entries)).1.len() == 0,
        adds(
            scanned(fbx::cluster_text(out, bones, numbers, bone, entries)).0,
            scanned(out).0,
            seq![cluster_head(bones, bone)],
            cluster_lists(numbers, bone, entries),
            Seq::empty(),
            Seq::empty(),
            Seq::empty(),
        ),
{
    let head = out + "\tDeformer: "@ + text::decimal((fbx::CLUSTER_BASE + bone) as nat) + ", \"SubDeformer::"@ + bones[bone].name@ + "\", \"Cluster\" {\n\t\tVersion: 100\n\t\tMode: \"Total1\"\n"@;
    cluster_head_is_read(out, bones, bone);
    let all = fbx::cluster_lists_text(head, entries, numbers.weights@);
    let owner = text::decimal((fbx::CLUSTER_BASE + bone) as nat);
    if entries.len() > 0 {
        moved_lists_are_read(head, entries, numbers.weights@);
    } else {
        assert(scanned(head).0.lists + Seq::<List>::empty() =~= scanned(head).0.lists);
    }
    assert(are_numbers(numbers.global_binds@[bone]@));
    bind_lists_are_read(all, numbers, bone);
    let found = scanned(fbx::cluster_text(out, bones, numbers, bone, entries)).0;
    let known = scanned(out).0;
    assert(found.lists =~= known.lists + cluster_lists(numbers, bone, entries));
    assert(found.heads =~= known.heads + seq![cluster_head(bones, bone)]);
    assert(found.properties =~= known.properties + Seq::empty());
    assert(found.links =~= known.links + Seq::empty());
    assert(found.counts =~= known.counts + Seq::empty());
}

/// The bind matrix of a node in the pose.
pub open spec fn pose_list(owner: Seq<char>, values: Seq<Seq<char>>) -> List {
    List { owner, name: "\t\t\tMatrix: "@, count: "16 {"@, values }
}

/// The bind matrix of a limb in the pose.
pub open spec fn limb_pose(numbers: FbxNumbers, bone: int) -> List {
    pose_list(
        text::decimal((fbx::LIMB_BASE + bone) as nat),
        decimals(numbers.global_binds@[bone]@),
    )
}


proof fn pose_node_is_read(out: Seq<char>, numbers: FbxNumbers, bone: int)
    requires
        scanned(out).1.len() == 0,
        0 <= bone,
        are_numbers(numbers.global_binds@[bone]@),
    ensures
        scanned(fbx::pose_node_text(out, numbers, bone)).1.len() == 0,
        adds(
            scanned(fbx::pose_node_text(out, numbers, bone)).0,
            scanned(out).0,
            Seq::empty(),
            seq![limb_pose(numbers, bone)],
            Seq::empty(),
            Seq::empty(),
            Seq::empty(),
        ),
{
    let step = fbx_step();
    let nothing = Seq::<char>::empty();
    assert(scanned(out) == (scanned(out).0, nothing)) by {
        assert(scanned(out).1 =~= nothing);
    }
    reading::decimal_lacks((fbx::LIMB_BASE + bone) as nat, '\n');
    decimals_are_read(numbers.global_binds@[bone]@);
    let t0 = out;
    let s0 = scanned(out).0;
    let t1 = t0 + "\t\tPoseNode:  {\n\t\t\tNode: "@;
    let s1 = with_line(s0, "\t\tPoseNode:  {"@);
    assert(s1 == s0) by {
        assert(is_plain("\t\tPoseNode:  {"@)) by {
            reveal_strlit("\t\tPoseNode:  {");
            other_is_plain("\t\tPoseNode:  {"@, 2, 'P');
        }
        plain_is_skipped(s0, "\t\tPoseNode:  {"@);
    }
    assert(scanned(t1) == (s1, "\t\t\tNode: "@)) by {
        reading::scan_more(t0, "\t\tPoseNode:  {\n\t\t\tNode: "@, unread(), step);
        assert("\t\tPoseNode:  {\n\t\t\tNode: "@ == "\t\tPoseNode:  {"@ + seq!['\n'] + "\t\t\tNode: "@) by {
            reveal_strlit("\t\tPoseNode:  {\n\t\t\tNode: ");
            reveal_strlit("\t\t\tNode: ");
            reveal_strlit("\t\tPoseNode:  {");
            assert("\t\tPoseNode:  {\n\t\t\tNode: "@ =~= "\t\tPoseNode:  {"@ + seq!['\n'] + "\t\t\tNode: "@);
        }
        assert(!"\t\tPoseNode:  {"@.contains('\n')) by {
            reveal_strlit("\t\tPoseNode:  {");
        }
        reading::scan_line(s0, nothing, "\t\tPoseNode:  {"@, "\t\t\tNode: "@, step);
        assert(nothing + "\t\tPoseNode:  {"@ =~= "\t\tPoseNode:  {"@);
        assert(!"\t\t\tNode: "@.contains('\n')) by {
            reveal_strlit("\t\t\tNode: ");
        }
        reading::scan_plain(s1, nothing, "\t\t\tNode: "@, step);
        assert(nothing + "\t\t\tNode: "@ =~= "\t\t\tNode: "@);
    }
    let t2 = t1 + text::decimal((fbx::LIMB_BASE + bone) as nat);
    assert(scanned(t2) == (s1, "\t\t\tNode: "@ + text::decimal((fbx::LIMB_BASE + bone) as nat))) by {
        reading::scan_more(t1, text::decimal((fbx::LIMB_BASE + bone) as nat), unread(), step);
        reading::scan_plain(s1, "\t\t\tNode: "@, text::decimal((fbx::LIMB_BASE + bone) as nat), step);
    }
    let t3 = t2 + "\n\t\t\tMatrix: *16 {\n\t\t\t\ta: "@;
    let s2 = with_line(s1, "\t\t\tNode: "@ + text::decimal((fbx::LIMB_BASE + bone) as nat));
    assert(s2 == (FbxReading { owner: text::decimal((fbx::LIMB_BASE + bone) as nat), ..s1 })) by {
        node_line_is_read(s1, text::decimal((fbx::LIMB_BASE + bone) as nat));
    }
    let s3 = with_line(s2, "\t\t\tMatrix: *16 {"@);
    assert(s3 == (FbxReading { name: "\t\t\tMatrix: "@, count: "16 {"@, ..s2 })) by {
        assert(is_plain("\t\t\tMatrix: "@)) by {
            reveal_strlit("\t\t\tMatrix: ");
            other_is_plain("\t\t\tMatrix: "@, 3, 'M');
        }
        assert("\t\t\tMatrix: *16 {"@ == "\t\t\tMatrix: "@ + seq!['*'] + "16 {"@) by {
            reveal_strlit("\t\t\tMatrix: *16 {");
            reveal_strlit("\t\t\tMatrix: ");
            reveal_strlit("16 {");
            assert("\t\t\tMatrix: *16 {"@ =~= "\t\t\tMatrix: "@ + seq!['*'] + "16 {"@);
        }
        assert(!"16 {"@.contains('*')) by {
            reveal_strlit("16 {");
        }
        name_is_noted(s2, "\t\t\tMatrix: "@, "16 {"@);
    }
    assert(scanned(t3) == (s3, "\t\t\t\ta: "@)) by {
        reading::scan_more(t2, "\n\t\t\tMatrix: *16 {\n\t\t\t\ta: "@, unread(), step);
        assert("\n\t\t\tMatrix: *16 {\n\t\t\t\ta: "@ == nothing + seq!['\n'] + ("\t\t\tMatrix: *16 {"@ + seq!['\n'] + "\t\t\t\ta: "@)) by {
            reveal_strlit("\n\t\t\tMatrix: *16 {\n\t\t\t\ta: ");
            reveal_strlit("\t\t\t\ta: ");
            reveal_strlit("\t\t\tMatrix: *16 {");
            assert("\n\t\t\tMatrix: *16 {\n\t\t\t\ta: "@ =~= nothing + seq!['\n'] + ("\t\t\tMatrix: *16 {"@ + seq!['\n'] + "\t\t\t\ta: "@));
        }
        reading::scan_line(s1, "\t\t\tNode: "@ + text::decimal((fbx::LIMB_BASE + bone) as nat), nothing, ("\t\t\tMatrix: *16 {"@ + seq!['\n'] + "\t\t\t\ta: "@), step);
        assert("\t\t\tNode: "@ + text::decimal((fbx::LIMB_BASE + bone) as nat) + nothing =~= "\t\t\tNode: "@ + text::decimal((fbx::LIMB_BASE + bone) as nat));
        assert(!"\t\t\tMatrix: *16 {"@.contains('\n')) by {
            reveal_strlit("\t\t\tMatrix: *16 {");
        }
        reading::scan_line(s2, nothing, "\t\t\tMatrix: *16 {"@, "\t\t\t\ta: "@, step);
        assert(nothing + "\t\t\tMatrix: *16 {"@ =~= "\t\t\tMatrix: *16 {"@);
        assert(!"\t\t\t\ta: "@.contains('\n')) by {
            reveal_strlit("\t\t\t\ta: ");
        }
        reading::scan_plain(s3, nothing, "\t\t\t\ta: "@, step);
        assert(nothing + "\t\t\t\ta: "@ =~= "\t\t\t\ta: "@);
    }
    let t4 = t3 + fbx::decimals_text(numbers.global_binds@[bone]@);
    assert(scanned(t4) == (s3, "\t\t\t\ta: "@ + fbx::decimals_text(numbers.global_binds@[bone]@))) by {
        reading::scan_more(t3, fbx::decimals_text(numbers.global_binds@[bone]@), unread(), step);
        reading::scan_plain(s3, "\t\t\t\ta: "@, fbx::decimals_text(numbers.global_binds@[bone]@), step);
    }
    let t5 = t4 + "\n\t\t\t}\n\t\t}\n"@;
    let s4 = with_line(s3, "\t\t\t\ta: "@ + fbx::decimals_text(numbers.global_binds@[bone]@));
    assert(s4 == with_values(s3, fbx::decimals_text(numbers.global_binds@[bone]@))) by {
        deep_list_line_is_read(s3, fbx::decimals_text(numbers.global_binds@[bone]@));
    }
    let s5 = with_line(s4, "\t\t\t}"@);
    assert(s5 == s4) by {
        assert(is_plain("\t\t\t}"@)) by {
            reveal_strlit("\t\t\t}");
            other_is_plain("\t\t\t}"@, 3, '}');
        }
        plain_is_skipped(s4, "\t\t\t}"@);
    }
    let s6 = with_line(s5, "\t\t}"@);
    assert(s6 == s5) by {
        assert(is_plain("\t\t}"@)) by {
            reveal_strlit("\t\t}");
            other_is_plain("\t\t}"@, 2, '}');
        }
        plain_is_skipped(s5, "\t\t}"@);
    }
    assert(scanned(t5) == (s6, nothing)) by {
        reading::scan_more(t4, "\n\t\t\t}\n\t\t}\n"@, unread(), step);
        assert("\n\t\t\t}\n\t\t}\n"@ == nothing + seq!['\n'] + ("\t\t\t}"@ + seq!['\n'] + ("\t\t}"@ + seq!['\n'] + nothing))) by {
            reveal_strlit("\n\t\t\t}\n\t\t}\n");
            reveal_strlit("\t\t\t}");
            reveal_strlit("\t\t}");
            assert("\n\t\t\t}\n\t\t}\n"@ =~= nothing + seq!['\n'] + ("\t\t\t}"@ + seq!['\n'] + ("\t\t}"@ + seq!['\n'] + nothing)));
        }
        reading::scan_line(s3, "\t\t\t\ta: "@ + fbx::decimals_text(numbers.global_binds@[bone]@), nothing, ("\t\t\t}"@ + seq!['\n'] + ("\t\t}"@ + seq!['\n'] + nothing)), step);
        assert("\t\t\t\ta: "@ + fbx::decimals_text(numbers.global_binds@[bone]@) + nothing =~= "\t\t\t\ta: "@ + fbx::decimals_text(numbers.global_binds@[bone]@));
        assert(!"\t\t\t}"@.contains('\n')) by {
            reveal_strlit("\t\t\t}");
        }
        reading::scan_line(s4, nothing, "\t\t\t}"@, ("\t\t}"@ + seq!['\n'] + nothing), step);
        assert(nothing + "\t\t\t}"@ =~= "\t\t\t}"@);
        assert(!"\t\t}"@.contains('\n')) by {
            reveal_strlit("\t\t}");
        }
        reading::scan_line(s5, nothing, "\t\t}"@, nothing, step);
        assert(nothing + "\t\t}"@ =~= "\t\t}"@);
        reading::scan_nothing(s6, nothing, step);
    }
    assert(fbx::pose_node_text(out, numbers, bone) == t5);
    assert(s6.heads =~= s0.heads + Seq::empty());
    assert(s6.lists =~= s0.lists + seq![limb_pose(numbers, bone)]);
    assert(s6.properties =~= s0.properties + Seq::empty());
    assert(s6.links =~= s0.links + Seq::empty());
    assert(s6.counts =~= s0.counts + Seq::empty());
}


/// The connection of a limb: to its parent limb, or to the scene.
pub open spec fn limb_link(bones: Seq<Bone>, bone: int) -> Seq<Seq<char>> {
    seq![
        text::decimal((fbx::LIMB_BASE + bone) as nat),
        text::decimal(fbx::parent_id(bones, bone)),
    ]
}

/// The connections of a cluster: to the skin, and from its limb.
pub open spec fn cluster_links(bone: int) -> Seq<Seq<Seq<char>>> {
    seq![
        seq![text::decimal((fbx::CLUSTER_BASE + bone) as nat), "1000002"@],
        seq![
            text::decimal((fbx::LIMB_BASE + bone) as nat),
            text::decimal((fbx::CLUSTER_BASE + bone) as nat),
        ],
    ]
}


proof fn limb_link_is_read(out: Seq<char>, bones: Seq<Bone>, bone: int)
    requires
        scanned(out).1.len() == 0,
        0 <= bone < bones.len(),
        names_fit(bones),
    ensures
        scanned(fbx::limb_connection_text(out, bones, bone)).1.len() == 0,
        adds(
            scanned(fbx::limb_connection_text(out, bones, bone)).0,
            scanned(out).0,
            Seq::empty(),
            Seq::empty(),
            Seq::empty(),
            seq![limb_link(bones, bone)],
            Seq::empty(),
        ),
{
    let step = fbx_step();
    let nothing = Seq::<char>::empty();
    assert(scanned(out) == (scanned(out).0, nothing)) by {
        assert(scanned(out).1 =~= nothing);
    }
    assert(!bones[bone].name@.contains('\n'));
    reading::decimal_lacks((fbx::LIMB_BASE + bone) as nat, '\n');
    reading::decimal_lacks(fbx::parent_id(bones, bone), '\n');
    let t0 = out;
    let s0 = scanned(out).0;
    let t1 = t0 + "\t;Model::"@;
    assert(scanned(t1) == (s0, "\t;Model::"@)) by {
        reading::scan_more(t0, "\t;Model::"@, unread(), step);
        reveal_strlit("\t;Model::");
        reading::scan_plain(s0, nothing, "\t;Model::"@, step);
        assert(nothing + "\t;Model::"@ =~= "\t;Model::"@);
    }
    let t2 = t1 + bones[bone].name@;
    assert(scanned(t2) == (s0, "\t;Model::"@ + bones[bone].name@)) by {
        reading::scan_more(t1, bones[bone].name@, unread(), step);
        reading::scan_plain(s0, "\t;Model::"@, bones[bone].name@, step);
    }
    let t3 = t2 + " -> parent\n\tC: \"OO\","@;
    let s1 = with_line(s0, "\t;Model::"@ + bones[bone].name@ + " -> parent"@);
    assert(s1 == s0) by {
        assert("\t;Model::"@ + bones[bone].name@ + " -> parent"@ == "\t;"@ + ("Model::"@ + bones[bone].name@ + " -> parent"@)) by {
            reveal_strlit("\t;Model::");
            reveal_strlit("\t;");
            reveal_strlit("Model::");
            assert("\t;Model::"@ =~= "\t;"@ + "Model::"@);
            assert("\t;Model::"@ + bones[bone].name@ + " -> parent"@ =~= "\t;"@ + ("Model::"@ + bones[bone].name@ + " -> parent"@));
        }
        note_line_is_read(s0, "Model::"@ + bones[bone].name@ + " -> parent"@);
    }
    assert(scanned(t3) == (s1, "\tC: \"OO\","@)) by {
        reading::scan_more(t2, " -> parent\n\tC: \"OO\","@, unread(), step);
        assert(" -> parent\n\tC: \"OO\","@ == " -> parent"@ + seq!['\n'] + "\tC: \"OO\","@) by {
            reveal_strlit(" -> parent\n\tC: \"OO\",");
            reveal_strlit("\tC: \"OO\",");
            reveal_strlit(" -> parent");
            assert(" -> parent\n\tC: \"OO\","@ =~= " -> parent"@ + seq!['\n'] + "\tC: \"OO\","@);
        }
        assert(!" -> parent"@.contains('\n')) by {
            reveal_strlit(" -> parent");
        }
        reading::scan_line(s0, "\t;Model::"@ + bones[bone].name@, " -> parent"@, "\tC: \"OO\","@, step);
        assert(!"\tC: \"OO\","@.contains('\n')) by {
            reveal_strlit("\tC: \"OO\",");
        }
        reading::scan_plain(s1, nothing, "\tC: \"OO\","@, step);
        assert(nothing + "\tC: \"OO\","@ =~= "\tC: \"OO\","@);
    }
    let t4 = t3 + text::decimal((fbx::LIMB_BASE + bone) as nat);
    assert(scanned(t4) == (s1, "\tC: \"OO\","@ + text::decimal((fbx::LIMB_BASE + bone) as nat))) by {
        reading::scan_more(t3, text::decimal((fbx::LIMB_BASE + bone) as nat), unread(), step);
        reading::scan_plain(s1, "\tC: \"OO\","@, text::decimal((fbx::LIMB_BASE + bone) as nat), step);
    }
    let t5 = t4 + ","@;
    assert(scanned(t5) == (s1, "\tC: \"OO\","@ + text::decimal((fbx::LIMB_BASE + bone) as nat) + ","@)) by {
        reading::scan_more(t4, ","@, unread(), step);
        reveal_strlit(",");
        reading::scan_plain(s1, "\tC: \"OO\","@ + text::decimal((fbx::LIMB_BASE + bone) as nat), ","@, step);
    }
    let t6 = t5 + text::decimal(fbx::parent_id(bones, bone));
    assert(scanned(t6) == (s1, "\tC: \"OO\","@ + text::decimal((fbx::LIMB_BASE + bone) as nat) + ","@ + text::decimal(fbx::parent_id(bones, bone)))) by {
        reading::scan_more(t5, text::decimal(fbx::parent_id(bones, bone)), unread(), step);
        reading::scan_plain(s1, "\tC: \"OO\","@ + text::decimal((fbx::LIMB_BASE + bone) as nat) + ","@, text::decimal(fbx::parent_id(bones, bone)), step);
    }
    let t7 = t6 + "\n"@;
    let s2 = with_line(s1, "\tC: \"OO\","@ + text::decimal((fbx::LIMB_BASE + bone) as nat) + ","@ + text::decimal(fbx::parent_id(bones, bone)));
    assert(s2 == (FbxReading { links: s1.links.push(seq![text::decimal((fbx::LIMB_BASE + bone) as nat), text::decimal(fbx::parent_id(bones, bone))]), ..s1 })) by {
        assert("\tC: \"OO\","@ + text::decimal((fbx::LIMB_BASE + bone) as nat) + ","@ + text::decimal(fbx::parent_id(bones, bone)) == "\tC: \"OO\","@ + (text::decimal((fbx::LIMB_BASE + bone) as nat) + ","@ + text::decimal(fbx::parent_id(bones, bone)))) by {
            assert("\tC: \"OO\","@ + text::decimal((fbx::LIMB_BASE + bone) as nat) + ","@ + text::decimal(fbx::parent_id(bones, bone)) =~= "\tC: \"OO\","@ + (text::decimal((fbx::LIMB_BASE + bone) as nat) + ","@ + text::decimal(fbx::parent_id(bones, bone))));
        }
        link_line_is_read(s1, text::decimal((fbx::LIMB_BASE + bone) as nat) + ","@ + text::decimal(fbx::parent_id(bones, bone)));
        assert(","@ =~= seq![',']) by {
            reveal_strlit(",");
        }
        reading::decimal_lacks((fbx::LIMB_BASE + bone) as nat, ',');
        reading::decimal_lacks(fbx::parent_id(bones, bone), ',');
        two_are_split(text::decimal((fbx::LIMB_BASE + bone) as nat), text::decimal(fbx::parent_id(bones, bone)), ',');
    }
    assert(scanned(t7) == (s2, nothing)) by {
        reading::scan_more(t6, "\n"@, unread(), step);
        assert("\n"@ == nothing + seq!['\n'] + nothing) by {
            reveal_strlit("\n");
            assert("\n"@ =~= nothing + seq!['\n'] + nothing);
        }
        reading::scan_line(s1, "\tC: \"OO\","@ + text::decimal((fbx::LIMB_BASE + bone) as nat) + ","@ + text::decimal(fbx::parent_id(bones, bone)), nothing, nothing, step);
        assert("\tC: \"OO\","@ + text::decimal((fbx::LIMB_BASE + bone) as nat) + ","@ + text::decimal(fbx::parent_id(bones, bone)) + nothing =~= "\tC: \"OO\","@ + text::decimal((fbx::LIMB_BASE + bone) as nat) + ","@ + text::decimal(fbx::parent_id(bones, bone)));
        reading::scan_nothing(s2, nothing, step);
    }
    assert(fbx::limb_connection_text(out, bones, bone) == t7);
    assert(s2.heads =~= s0.heads + Seq::empty());
    assert(s2.lists =~= s0.lists + Seq::empty());
    assert(s2.properties =~= s0.properties + Seq::empty());
    assert(s2.links =~= s0.links + seq![limb_link(bones, bone)]);
    assert(s2.counts =~= s0.counts + Seq::empty());
}

proof fn cluster_links_are_read(out: Seq<char>, bones: Seq<Bone>, bone: int)
    requires
        scanned(out).1.len() == 0,
        0 <= bone < bones.len(),
        names_fit(bones),
    ensures
        scanned(fbx::cluster_connection_text(out, bones, bone)).1.len() == 0,
        adds(
            scanned(fbx::cluster_connection_text(out, bones, bone)).0,
            scanned(out).0,
            Seq::empty(),
            Seq::empty(),
            Seq::empty(),
            cluster_links(bone),
            Seq::empty(),
        ),
{
    let step = fbx_step();
    let nothing = Seq::<char>::empty();
    assert(scanned(out) == (scanned(out).0, nothing)) by {
        assert(scanned(out).1 =~= nothing);
    }
    assert(!bones[bone].name@.contains('\n'));
    reading::decimal_lacks((fbx::LIMB_BASE + bone) as nat, '\n');
    reading::decimal_lacks((fbx::CLUSTER_BASE + bone) as nat, '\n');
    let t0 = out;
    let s0 = scanned(out).0;
    let t1 = t0 + "\t;SubDeformer::"@;
    assert(scanned(t1) == (s0, "\t;SubDeformer::"@)) by {
        reading::scan_more(t0, "\t;SubDeformer::"@, unread(), step);
        reveal_strlit("\t;SubDeformer::");
        reading::scan_plain(s0, nothing, "\t;SubDeformer::"@, step);
        assert(nothing + "\t;SubDeformer::"@ =~= "\t;SubDeformer::"@);
    }
    let t2 = t1 + bones[bone].name@;
    assert(scanned(t2) == (s0, "\t;SubDeformer::"@ + bones[bone].name@)) by {
        reading::scan_more(t1, bones[bone].name@, unread(), step);
        reading::scan_plain(s0, "\t;SubDeformer::"@, bones[bone].name@, step);
    }
    let t3 = t2 + " -> Deformer::skin\n\tC: \"OO\","@;
    let s1 = with_line(s0, "\t;SubDeformer::"@ + bones[bone].name@ + " -> Deformer::skin"@);
    assert(s1 == s0) by {
        assert("\t;SubDeformer::"@ + bones[bone].name@ + " -> Deformer::skin"@ == "\t;"@ + ("SubDeformer::"@ + bones[bone].name@ + " -> Deformer::skin"@)) by {
            reveal_strlit("\t;SubDeformer::");
            reveal_strlit("\t;");
            reveal_strlit("SubDeformer::");
            assert("\t;SubDeformer::"@ =~= "\t;"@ + "SubDeformer::"@);
            assert("\t;SubDeformer::"@ + bones[bone].name@ + " -> Deformer::skin"@ =~= "\t;"@ + ("SubDeformer::"@ + bones[bone].name@ + " -> Deformer::skin"@));
        }
        note_line_is_read(s0, "SubDeformer::"@ + bones[bone].name@ + " -> Deformer::skin"@);
    }
    assert(scanned(t3) == (s1, "\tC: \"OO\","@)) by {
        reading::scan_more(t2, " -> Deformer::skin\n\tC: \"OO\","@, unread(), step);
        assert(" -> Deformer::skin\n\tC: \"OO\","@ == " -> Deformer::skin"@ + seq!['\n'] + "\tC: \"OO\","@) by {
            reveal_strlit(" -> Deformer::skin\n\tC: \"OO\",");
            reveal_strlit("\tC: \"OO\",");
            reveal_strlit(" -> Deformer::skin");
            assert(" -> Deformer::skin\n\tC: \"OO\","@ =~= " -> Deformer::skin"@ + seq!['\n'] + "\tC: \"OO\","@);
        }
        assert(!" -> Deformer::skin"@.contains('\n')) by {
            reveal_strlit(" -> Deformer::skin");
        }
        reading::scan_line(s0, "\t;SubDeformer::"@ + bones[bone].name@, " -> Deformer::skin"@, "\tC: \"OO\","@, step);
        assert(!"\tC: \"OO\","@.contains('\n')) by {
            reveal_strlit("\tC: \"OO\",");
        }
        reading::scan_plain(s1, nothing, "\tC: \"OO\","@, step);
        assert(nothing + "\tC: \"OO\","@ =~= "\tC: \"OO\","@);
    }
    let t4 = t3 + text::decimal((fbx::CLUSTER_BASE + bone) as nat);
    assert(scanned(t4) == (s1, "\tC: \"OO\","@ + text::decimal((fbx::CLUSTER_BASE + bone) as nat))) by {
        reading::scan_more(t3, text::decimal((fbx::CLUSTER_BASE + bone) as nat), unread(), step);
        reading::scan_plain(s1, "\tC: \"OO\","@, text::decimal((fbx::CLUSTER_BASE + bone) as nat), step);
    }
    let t5 = t4 + ",1000002\n\t;Model::"@;
    let s2 = with_line(s1, "\tC: \"OO\","@ + text::decimal((fbx::CLUSTER_BASE + bone) as nat) + ",1000002"@);
    assert(s2 == (FbxReading { links: s1.links.push(seq![text::decimal((fbx::CLUSTER_BASE + bone) as nat), "1000002"@]), ..s1 })) by {
        assert("\tC: \"OO\","@ + text::decimal((fbx::CLUSTER_BASE + bone) as nat) + ",1000002"@ == "\tC: \"OO\","@ + (text::decimal((fbx::CLUSTER_BASE + bone) as nat) + ",1000002"@)) by {
            assert("\tC: \"OO\","@ + text::decimal((fbx::CLUSTER_BASE + bone) as nat) + ",1000002"@ =~= "\tC: \"OO\","@ + (text::decimal((fbx::CLUSTER_BASE + bone) as nat) + ",1000002"@));
        }
        link_line_is_read(s1, text::decimal((fbx::CLUSTER_BASE + bone) as nat) + ",1000002"@);
        assert(text::decimal((fbx::CLUSTER_BASE + bone) as nat) + ",1000002"@ == text::decimal((fbx::CLUSTER_BASE + bone) as nat) + seq![','] + "1000002"@) by {
            reveal_strlit(",1000002");
            reveal_strlit("1000002");
            assert(text::decimal((fbx::CLUSTER_BASE + bone) as nat) + ",1000002"@ =~= text::decimal((fbx::CLUSTER_BASE + bone) as nat) + seq![','] + "1000002"@);
        }
        assert(!"1000002"@.contains(',')) by {
            reveal_strlit("1000002");
        }
        reading::decimal_lacks((fbx::CLUSTER_BASE + bone) as nat, ',');
        two_are_split(text::decimal((fbx::CLUSTER_BASE + bone) as nat), "1000002"@, ',');
    }
    assert(scanned(t5) == (s2, "\t;Model::"@)) by {
        reading::scan_more(t4, ",1000002\n\t;Model::"@, unread(), step);
        assert(",1000002\n\t;Model::"@ == ",1000002"@ + seq!['\n'] + "\t;Model::"@) by {
            reveal_strlit(",1000002\n\t;Model::");
            reveal_strlit("\t;Model::");
            reveal_strlit(",1000002");
            assert(",1000002\n\t;Model::"@ =~= ",1000002"@ + seq!['\n'] + "\t;Model::"@);
        }
        assert(!",1000002"@.contains('\n')) by {
            reveal_strlit(",1000002");
        }
        reading::scan_line(s1, "\tC: \"OO\","@ + text::decimal((fbx::CLUSTER_BASE + bone) as nat), ",1000002"@, "\t;Model::"@, step);
        assert(!"\t;Model::"@.contains('\n')) by {
            reveal_strlit("\t;Model::");
        }
        reading::scan_plain(s2, nothing, "\t;Model::"@, step);
        assert(nothing + "\t;Model::"@ =~= "\t;Model::"@);
    }
    let t6 = t5 + bones[bone].name@;
    assert(scanned(t6) == (s2, "\t;Model::"@ + bones[bone].name@)) by {
        reading::scan_more(t5, bones[bone].name@, unread(), step);
        reading::scan_plain(s2, "\t;Model::"@, bones[bone].name@, step);
    }
    let t7 = t6 + " -> SubDeformer\n\tC: \"OO\","@;
    let s3 = with_line(s2, "\t;Model::"@ + bones[bone].name@ + " -> SubDeformer"@);
    assert(s3 == s2) by {
        assert("\t;Model::"@ + bones[bone].name@ + " -> SubDeformer"@ == "\t;"@ + ("Model::"@ + bones[bone].name@ + " -> SubDeformer"@)) by {
            reveal_strlit("\t;Model::");
            reveal_strlit("\t;");
            reveal_strlit("Model::");
            assert("\t;Model::"@ =~= "\t;"@ + "Model::"@);
            assert("\t;Model::"@ + bones[bone].name@ + " -> SubDeformer"@ =~= "\t;"@ + ("Model::"@ + bones[bone].name@ + " -> SubDeformer"@));
        }
        note_line_is_read(s2, "Model::"@ + bones[bone].name@ + " -> SubDeformer"@);
    }
    assert(scanned(t7) == (s3, "\tC: \"OO\","@)) by {
        reading::scan_more(t6, " -> SubDeformer\n\tC: \"OO\","@, unread(), step);
        assert(" -> SubDeformer\n\tC: \"OO\","@ == " -> SubDeformer"@ + seq!['\n'] + "\tC: \"OO\","@) by {
            reveal_strlit(" -> SubDeformer\n\tC: \"OO\",");
            reveal_strlit("\tC: \"OO\",");
            reveal_strlit(" -> SubDeformer");
            assert(" -> SubDeformer\n\tC: \"OO\","@ =~= " -> SubDeformer"@ + seq!['\n'] + "\tC: \"OO\","@);
        }
        assert(!" -> SubDeformer"@.contains('\n')) by {
            reveal_strlit(" -> SubDeformer");
        }
        reading::scan_line(s2, "\t;Model::"@ + bones[bone].name@, " -> SubDeformer"@, "\tC: \"OO\","@, step);
        assert(!"\tC: \"OO\","@.contains('\n')) by {
            reveal_strlit("\tC: \"OO\",");
        }
        reading::scan_plain(s3, nothing, "\tC: \"OO\","@, step);
        assert(nothing + "\tC: \"OO\","@ =~= "\tC: \"OO\","@);
    }
    let t8 = t7 + text::decimal((fbx::LIMB_BASE + bone) as nat);
    assert(scanned(t8) == (s3, "\tC: \"OO\","@ + text::decimal((fbx::LIMB_BASE + bone) as nat))) by {
        reading::scan_more(t7, text::decimal((fbx::LIMB_BASE + bone) as nat), unread(), step);
        reading::scan_plain(s3, "\tC: \"OO\","@, text::decimal((fbx::LIMB_BASE + bone) as nat), step);
    }
    let t9 = t8 + ","@;
    assert(scanned(t9) == (s3, "\tC: \"OO\","@ + text::decimal((fbx::LIMB_BASE + bone) as nat) + ","@)) by {
        reading::scan_more(t8, ","@, unread(), step);
        reveal_strlit(",");
        reading::scan_plain(s3, "\tC: \"OO\","@ + text::decimal((fbx::LIMB_BASE + bone) as nat), ","@, step);
    }
    let t10 = t9 + text::decimal((fbx::CLUSTER_BASE + bone) as nat);
    assert(scanned(t10) == (s3, "\tC: \"OO\","@ + text::decimal((fbx::LIMB_BASE + bone) as nat) + ","@ + text::decimal((fbx::CLUSTER_BASE + bone) as nat))) by {
        reading::scan_more(t9, text::decimal((fbx::CLUSTER_BASE + bone) as nat), unread(), step);
        reading::scan_plain(s3, "\tC: \"OO\","@ + text::decimal((fbx::LIMB_BASE + bone) as nat) + ","@, text::decimal((fbx::CLUSTER_BASE + bone) as nat), step);
    }
    let t11 = t10 + "\n"@;
    let s4 = with_line(s3, "\tC: \"OO\","@ + text::decimal((fbx::LIMB_BASE + bone) as nat) + ","@ + text::decimal((fbx::CLUSTER_BASE + bone) as nat));
    assert(s4 == (FbxReading { links: s3.links.push(seq![text::decimal((fbx::LIMB_BASE + bone) as nat), text::decimal((fbx::CLUSTER_BASE + bone) as nat)]), ..s3 })) by {
        assert("\tC: \"OO\","@ + text::decimal((fbx::LIMB_BASE + bone) as nat) + ","@ + text::decimal((fbx::CLUSTER_BASE + bone) as nat) == "\tC: \"OO\","@ + (text::decimal((fbx::LIMB_BASE + bone) as nat) + ","@ + text::decimal((fbx::CLUSTER_BASE + bone) as nat))) by {
            assert("\tC: \"OO\","@ + text::decimal((fbx::LIMB_BASE + bone) as nat) + ","@ + text::decimal((fbx::CLUSTER_BASE + bone) as nat) =~= "\tC: \"OO\","@ + (text::decimal((fbx::LIMB_BASE + bone) as nat) + ","@ + text::decimal((fbx::CLUSTER_BASE + bone) as nat)));
        }
        link_line_is_read(s3, text::decimal((fbx::LIMB_BASE + bone) as nat) + ","@ + text::decimal((fbx::CLUSTER_BASE + bone) as nat));
        assert(","@ =~= seq![',']) by {
            reveal_strlit(",");
        }
        reading::decimal_lacks((fbx::LIMB_BASE + bone) as nat, ',');
        reading::decimal_lacks((fbx::CLUSTER_BASE + bone) as nat, ',');
        two_are_split(text::decimal((fbx::LIMB_BASE + bone) as nat), text::decimal((fbx::CLUSTER_BASE + bone) as nat), ',');
    }
    assert(scanned(t11) == (s4, nothing)) by {
        reading::scan_more(t10, "\n"@, unread(), step);
        assert("\n"@ == nothing + seq!['\n'] + nothing) by {
            reveal_strlit("\n");
            assert("\n"@ =~= nothing + seq!['\n'] + nothing);
        }
        reading::scan_line(s3, "\tC: \"OO\","@ + text::decimal((fbx::LIMB_BASE + bone) as nat) + ","@ + text::decimal((fbx::CLUSTER_BASE + bone) as nat), nothing, nothing, step);
        assert("\tC: \"OO\","@ + text::decimal((fbx::LIMB_BASE + bone) as nat) + ","@ + text::decimal((fbx::CLUSTER_BASE + bone) as nat) + nothing =~= "\tC: \"OO\","@ + text::decimal((fbx::LIMB_BASE + bone) as nat) + ","@ + text::decimal((fbx::CLUSTER_BASE + bone) as nat));
        reading::scan_nothing(s4, nothing, step);
    }
    assert(fbx::cluster_connection_text(out, bones, bone) == t11);
    assert(s4.heads =~= s0.heads + Seq::empty());
    assert(s4.lists =~= s0.lists + Seq::empty());
    assert(s4.properties =~= s0.properties + Seq::empty());
    assert(s4.links =~= s0.links + cluster_links(bone));
    assert(s4.counts =~= s0.counts + Seq::empty());
}


/// The head of the bind pose.
pub open spec fn pose_head() -> Head {
    Head {
        kind: "\tPose: "@,
        id: "4000000"@,
        rest: " \"Pose::BIND_POSES\", \"BindPose\" {"@,
    }
}


proof fn pose_start_is_read(out: Seq<char>, bones: nat)
    requires
        scanned(out).1.len() == 0,
    ensures
        scanned(out + "\tPose: 4000000, \"Pose::BIND_POSES\", \"BindPose\" {\n\t\tType: \"BindPose\"\n\t\tVersion: 100\n\t\tNbPoseNodes: "@ + text::decimal(bones + 1) + "\n\t\tPoseNode:  {\n\t\t\tNode: 1000001\n\t\t\tMatrix: *16 {\n\t\t\t\ta: 1.0,0,0,0,0,1.0,0,0,0,0,1.0,0,0,0,0,1.0\n\t\t\t}\n\t\t}\n"@).1.len() == 0,
        adds(
            scanned(out + "\tPose: 4000000, \"Pose::BIND_POSES\", \"BindPose\" {\n\t\tType: \"BindPose\"\n\t\tVersion: 100\n\t\tNbPoseNodes: "@ + text::decimal(bones + 1) + "\n\t\tPoseNode:  {\n\t\t\tNode: 1000001\n\t\t\tMatrix: *16 {\n\t\t\t\ta: 1.0,0,0,0,0,1.0,0,0,0,0,1.0,0,0,0,0,1.0\n\t\t\t}\n\t\t}\n"@).0,
            scanned(out).0,
            seq![pose_head()],
            seq![pose_list("1000001"@, identity_values())],
            Seq::empty(),
            Seq::empty(),
            seq![seq![text::decimal(bones + 1)]],
        ),
{
    let step = fbx_step();
    let nothing = Seq::<char>::empty();
    assert(scanned(out) == (scanned(out).0, nothing)) by {
        assert(scanned(out).1 =~= nothing);
    }
    reading::decimal_lacks(bones + 1, '\n');
    let t0 = out;
    let s0 = scanned(out).0;
    let t1 = t0 + "\tPose: 4000000, \"Pose::BIND_POSES\", \"BindPose\" {\n\t\tType: \"BindPose\"\n\t\tVersion: 100\n\t\tNbPoseNodes: "@;
    let s1 = with_line(s0, "\tPose: 4000000, \"Pose::BIND_POSES\", \"BindPose\" {"@);
    assert(s1 == (FbxReading { heads: s0.heads.push(Head { kind: "\tPose: "@, id: "4000000"@, rest: " \"Pose::BIND_POSES\", \"BindPose\" {"@ }), owner: "4000000"@, ..s0 })) by {
        assert("\tPose: 4000000, \"Pose::BIND_POSES\", \"BindPose\" {"@ == "\tPose: "@ + ("4000000, \"Pose::BIND_POSES\", \"BindPose\" {"@)) by {
            reveal_strlit("\tPose: 4000000, \"Pose::BIND_POSES\", \"BindPose\" {");
            reveal_strlit("\tPose: ");
            reveal_strlit("4000000, \"Pose::BIND_POSES\", \"BindPose\" {");
            assert("\tPose: 4000000, \"Pose::BIND_POSES\", \"BindPose\" {"@ =~= "\tPose: "@ + "4000000, \"Pose::BIND_POSES\", \"BindPose\" {"@);
            assert("\tPose: 4000000, \"Pose::BIND_POSES\", \"BindPose\" {"@ =~= "\tPose: "@ + ("4000000, \"Pose::BIND_POSES\", \"BindPose\" {"@));
        }
        pose_line_is_read(s0, "4000000, \"Pose::BIND_POSES\", \"BindPose\" {"@);
        assert("4000000, \"Pose::BIND_POSES\", \"BindPose\" {"@ == "4000000"@ + seq![','] + " \"Pose::BIND_POSES\", \"BindPose\" {"@) by {
            reveal_strlit("4000000, \"Pose::BIND_POSES\", \"BindPose\" {");
            reveal_strlit("4000000");
            reveal_strlit(" \"Pose::BIND_POSES\", \"BindPose\" {");
            assert("4000000, \"Pose::BIND_POSES\", \"BindPose\" {"@ =~= "4000000"@ + seq![','] + " \"Pose::BIND_POSES\", \"BindPose\" {"@);
        }
        assert(!"4000000"@.contains(',')) by {
            reveal_strlit("4000000");
        }
        head_is_noted(s0, "\tPose: "@, "4000000"@, " \"Pose::BIND_POSES\", \"BindPose\" {"@);
    }
    let s2 = with_line(s1, "\t\tType: \"BindPose\""@);
    assert(s2 == s1) by {
        assert(is_plain("\t\tType: \"BindPose\""@)) by {
            reveal_strlit("\t\tType: \"BindPose\"");
            other_is_plain("\t\tType: \"BindPose\""@, 2, 'T');
        }
        plain_is_skipped(s1, "\t\tType: \"BindPose\""@);
    }
    let s3 = with_line(s2, "\t\tVersion: 100"@);
    assert(s3 == s2) by {
        assert(is_plain("\t\tVersion: 100"@)) by {
            reveal_strlit("\t\tVersion: 100");
            other_is_plain("\t\tVersion: 100"@, 2, 'V');
        }
        plain_is_skipped(s2, "\t\tVersion: 100"@);
    }
    assert(scanned(t1) == (s3, "\t\tNbPoseNodes: "@)) by {
        reading::scan_more(t0, "\tPose: 4000000, \"Pose::BIND_POSES\", \"BindPose\" {\n\t\tType: \"BindPose\"\n\t\tVersion: 100\n\t\tNbPoseNodes: "@, unread(), step);
        assert("\tPose: 4000000, \"Pose::BIND_POSES\", \"BindPose\" {\n\t\tType: \"BindPose\"\n\t\tVersion: 100\n\t\tNbPoseNodes: "@ == "\tPose: 4000000, \"Pose::BIND_POSES\", \"BindPose\" {"@ + seq!['\n'] + ("\t\tType: \"BindPose\""@ + seq!['\n'] + ("\t\tVersion: 100"@ + seq!['\n'] + "\t\tNbPoseNodes: "@))) by {
            reveal_strlit("\tPose: 4000000, \"Pose::BIND_POSES\", \"BindPose\" {\n\t\tType: \"BindPose\"\n\t\tVersion: 100\n\t\tNbPoseNodes: ");
            reveal_strlit("\t\tNbPoseNodes: ");
            reveal_strlit("\t\tType: \"BindPose\"");
            reveal_strlit("\t\tVersion: 100");
            reveal_strlit("\tPose: 4000000, \"Pose::BIND_POSES\", \"BindPose\" {");
            assert("\tPose: 4000000, \"Pose::BIND_POSES\", \"BindPose\" {\n\t\tType: \"BindPose\"\n\t\tVersion: 100\n\t\tNbPoseNodes: "@ =~= "\tPose: 4000000, \"Pose::BIND_POSES\", \"BindPose\" {"@ + seq!['\n'] + ("\t\tType: \"BindPose\""@ + seq!['\n'] + ("\t\tVersion: 100"@ + seq!['\n'] + "\t\tNbPoseNodes: "@)));
        }
        assert(!"\tPose: 4000000, \"Pose::BIND_POSES\", \"BindPose\" {"@.contains('\n')) by {
            reveal_strlit("\tPose: 4000000, \"Pose::BIND_POSES\", \"BindPose\" {");
        }
        reading::scan_line(s0, nothing, "\tPose: 4000000, \"Pose::BIND_POSES\", \"BindPose\" {"@, ("\t\tType: \"BindPose\""@ + seq!['\n'] + ("\t\tVersion: 100"@ + seq!['\n'] + "\t\tNbPoseNodes: "@)), step);
        assert(nothing + "\tPose: 4000000, \"Pose::BIND_POSES\", \"BindPose\" {"@ =~= "\tPose: 4000000, \"Pose::BIND_POSES\", \"BindPose\" {"@);
        assert(!"\t\tType: \"BindPose\""@.contains('\n')) by {
            reveal_strlit("\t\tType: \"BindPose\"");
        }
        reading::scan_line(s1, nothing, "\t\tType: \"BindPose\""@, ("\t\tVersion: 100"@ + seq!['\n'] + "\t\tNbPoseNodes: "@), step);
        assert(nothing + "\t\tType: \"BindPose\""@ =~= "\t\tType: \"BindPose\""@);
        assert(!"\t\tVersion: 100"@.contains('\n')) by {
            reveal_strlit("\t\tVersion: 100");
        }
        reading::scan_line(s2, nothing, "\t\tVersion: 100"@, "\t\tNbPoseNodes: "@, step);
        assert(nothing + "\t\tVersion: 100"@ =~= "\t\tVersion: 100"@);
        assert(!"\t\tNbPoseNodes: "@.contains('\n')) by {
            reveal_strlit("\t\tNbPoseNodes: ");
        }
        reading::scan_plain(s3, nothing, "\t\tNbPoseNodes: "@, step);
        assert(nothing + "\t\tNbPoseNodes: "@ =~= "\t\tNbPoseNodes: "@);
    }
    let t2 = t1 + text::decimal(bones + 1);
    assert(scanned(t2) == (s3, "\t\tNbPoseNodes: "@ + text::decimal(bones + 1))) by {
        reading::scan_more(t1, text::decimal(bones + 1), unread(), step);
        reading::scan_plain(s3, "\t\tNbPoseNodes: "@, text::decimal(bones + 1), step);
    }
    let t3 = t2 + "\n\t\tPoseNode:  {\n\t\t\tNode: 1000001\n\t\t\tMatrix: *16 {\n\t\t\t\ta: 1.0,0,0,0,0,1.0,0,0,0,0,1.0,0,0,0,0,1.0\n\t\t\t}\n\t\t}\n"@;
    let s4 = with_line(s3, "\t\tNbPoseNodes: "@ + text::decimal(bones + 1));
    assert(s4 == (FbxReading { counts: s3.counts.push(seq![text::decimal(bones + 1)]), ..s3 })) by {
        pose_count_line_is_read(s3, text::decimal(bones + 1));
        reading::decimal_lacks(bones + 1, ' ');
        reading::split_whole(text::decimal(bones + 1), ' ');
    }
    let s5 = with_line(s4, "\t\tPoseNode:  {"@);
    assert(s5 == s4) by {
        assert(is_plain("\t\tPoseNode:  {"@)) by {
            reveal_strlit("\t\tPoseNode:  {");
            other_is_plain("\t\tPoseNode:  {"@, 2, 'P');
        }
        plain_is_skipped(s4, "\t\tPoseNode:  {"@);
    }
    let s6 = with_line(s5, "\t\t\tNode: 1000001"@);
    assert(s6 == (FbxReading { owner: "1000001"@, ..s5 })) by {
        assert("\t\t\tNode: 1000001"@ == "\t\t\tNode: "@ + ("1000001"@)) by {
            reveal_strlit("\t\t\tNode: 1000001");
            reveal_strlit("\t\t\tNode: ");
            reveal_strlit("1000001");
            assert("\t\t\tNode: 1000001"@ =~= "\t\t\tNode: "@ + "1000001"@);
            assert("\t\t\tNode: 1000001"@ =~= "\t\t\tNode: "@ + ("1000001"@));
        }
        node_line_is_read(s5, "1000001"@);
    }
    let s7 = with_line(s6, "\t\t\tMatrix: *16 {"@);
    assert(s7 == (FbxReading { name: "\t\t\tMatrix: "@, count: "16 {"@, ..s6 })) by {
        assert(is_plain("\t\t\tMatrix: "@)) by {
            reveal_strlit("\t\t\tMatrix: ");
            other_is_plain("\t\t\tMatrix: "@, 3, 'M');
        }
        assert("\t\t\tMatrix: *16 {"@ == "\t\t\tMatrix: "@ + seq!['*'] + "16 {"@) by {
            reveal_strlit("\t\t\tMatrix: *16 {");
            reveal_strlit("\t\t\tMatrix: ");
            reveal_strlit("16 {");
            assert("\t\t\tMatrix: *16 {"@ =~= "\t\t\tMatrix: "@ + seq!['*'] + "16 {"@);
        }
        assert(!"16 {"@.contains('*')) by {
            reveal_strlit("16 {");
        }
        name_is_noted(s6, "\t\t\tMatrix: "@, "16 {"@);
    }
    let s8 = with_line(s7, "\t\t\t\ta: 1.0,0,0,0,0,1.0,0,0,0,0,1.0,0,0,0,0,1.0"@);
    assert(s8 == with_values(s7, "1.0,0,0,0,0,1.0,0,0,0,0,1.0,0,0,0,0,1.0"@)) by {
        assert("\t\t\t\ta: 1.0,0,0,0,0,1.0,0,0,0,0,1.0,0,0,0,0,1.0"@ == "\t\t\t\ta: "@ + ("1.0,0,0,0,0,1.0,0,0,0,0,1.0,0,0,0,0,1.0"@)) by {
            reveal_strlit("\t\t\t\ta: 1.0,0,0,0,0,1.0,0,0,0,0,1.0,0,0,0,0,1.0");
            reveal_strlit("\t\t\t\ta: ");
            reveal_strlit("1.0,0,0,0,0,1.0,0,0,0,0,1.0,0,0,0,0,1.0");
            assert("\t\t\t\ta: 1.0,0,0,0,0,1.0,0,0,0,0,1.0,0,0,0,0,1.0"@ =~= "\t\t\t\ta: "@ + "1.0,0,0,0,0,1.0,0,0,0,0,1.0,0,0,0,0,1.0"@);
            assert("\t\t\t\ta: 1.0,0,0,0,0,1.0,0,0,0,0,1.0,0,0,0,0,1.0"@ =~= "\t\t\t\ta: "@ + ("1.0,0,0,0,0,1.0,0,0,0,0,1.0,0,0,0,0,1.0"@));
        }
        deep_list_line_is_read(s7, "1.0,0,0,0,0,1.0,0,0,0,0,1.0,0,0,0,0,1.0"@);
    }
    let s9 = with_line(s8, "\t\t\t}"@);
    assert(s9 == s8) by {
        assert(is_plain("\t\t\t}"@)) by {
            reveal_strlit("\t\t\t}");
            other_is_plain("\t\t\t}"@, 3, '}');
        }
        plain_is_skipped(s8, "\t\t\t}"@);
    }
    let s10 = with_line(s9, "\t\t}"@);
    assert(s10 == s9) by {
        assert(is_plain("\t\t}"@)) by {
            reveal_strlit("\t\t}");
            other_is_plain("\t\t}"@, 2, '}');
        }
        plain_is_skipped(s9, "\t\t}"@);
    }
    assert(scanned(t3) == (s10, nothing)) by {
        reading::scan_more(t2, "\n\t\tPoseNode:  {\n\t\t\tNode: 1000001\n\t\t\tMatrix: *16 {\n\t\t\t\ta: 1.0,0,0,0,0,1.0,0,0,0,0,1.0,0,0,0,0,1.0\n\t\t\t}\n\t\t}\n"@, unread(), step);
        assert("\n\t\tPoseNode:  {\n\t\t\tNode: 1000001\n\t\t\tMatrix: *16 {\n\t\t\t\ta: 1.0,0,0,0,0,1.0,0,0,0,0,1.0,0,0,0,0,1.0\n\t\t\t}\n\t\t}\n"@ == nothing + seq!['\n'] + ("\t\tPoseNode:  {"@ + seq!['\n'] + ("\t\t\tNode: 1000001"@ + seq!['\n'] + ("\t\t\tMatrix: *16 {"@ + seq!['\n'] + ("\t\t\t\ta: 1.0,0,0,0,0,1.0,0,0,0,0,1.0,0,0,0,0,1.0"@ + seq!['\n'] + ("\t\t\t}"@ + seq!['\n'] + ("\t\t}"@ + seq!['\n'] + nothing))))))) by {
            reveal_strlit("\n\t\tPoseNode:  {\n\t\t\tNode: 1000001\n\t\t\tMatrix: *16 {\n\t\t\t\ta: 1.0,0,0,0,0,1.0,0,0,0,0,1.0,0,0,0,0,1.0\n\t\t\t}\n\t\t}\n");
            reveal_strlit("\t\t\t\ta: 1.0,0,0,0,0,1.0,0,0,0,0,1.0,0,0,0,0,1.0");
            reveal_strlit("\t\t\tMatrix: *16 {");
            reveal_strlit("\t\t\tNode: 1000001");
            reveal_strlit("\t\t\t}");
            reveal_strlit("\t\tPoseNode:  {");
            reveal_strlit("\t\t}");
            assert("\n\t\tPoseNode:  {\n\t\t\tNode: 1000001\n\t\t\tMatrix: *16 {\n\t\t\t\ta: 1.0,0,0,0,0,1.0,0,0,0,0,1.0,0,0,0,0,1.0\n\t\t\t}\n\t\t}\n"@ =~= nothing + seq!['\n'] + ("\t\tPoseNode:  {"@ + seq!['\n'] + ("\t\t\tNode: 1000001"@ + seq!['\n'] + ("\t\t\tMatrix: *16 {"@ + seq!['\n'] + ("\t\t\t\ta: 1.0,0,0,0,0,1.0,0,0,0,0,1.0,0,0,0,0,1.0"@ + seq!['\n'] + ("\t\t\t}"@ + seq!['\n'] + ("\t\t}"@ + seq!['\n'] + nothing)))))));
        }
        reading::scan_line(s3, "\t\tNbPoseNodes: "@ + text::decimal(bones + 1), nothing, ("\t\tPoseNode:  {"@ + seq!['\n'] + ("\t\t\tNode: 1000001"@ + seq!['\n'] + ("\t\t\tMatrix: *16 {"@ + seq!['\n'] + ("\t\t\t\ta: 1.0,0,0,0,0,1.0,0,0,0,0,1.0,0,0,0,0,1.0"@ + seq!['\n'] + ("\t\t\t}"@ + seq!['\n'] + ("\t\t}"@ + seq!['\n'] + nothing)))))), step);
        assert("\t\tNbPoseNodes: "@ + text::decimal(bones + 1) + nothing =~= "\t\tNbPoseNodes: "@ + text::decimal(bones + 1));
        assert(!"\t\tPoseNode:  {"@.contains('\n')) by {
            reveal_strlit("\t\tPoseNode:  {");
        }
        reading::scan_line(s4, nothing, "\t\tPoseNode:  {"@, ("\t\t\tNode: 1000001"@ + seq!['\n'] + ("\t\t\tMatrix: *16 {"@ + seq!['\n'] + ("\t\t\t\ta: 1.0,0,0,0,0,1.0,0,0,0,0,1.0,0,0,0,0,1.0"@ + seq!['\n'] + ("\t\t\t}"@ + seq!['\n'] + ("\t\t}"@ + seq!['\n'] + nothing))))), step);
        assert(nothing + "\t\tPoseNode:  {"@ =~= "\t\tPoseNode:  {"@);
        assert(!"\t\t\tNode: 1000001"@.contains('\n')) by {
            reveal_strlit("\t\t\tNode: 1000001");
        }
        reading::scan_line(s5, nothing, "\t\t\tNode: 1000001"@, ("\t\t\tMatrix: *16 {"@ + seq!['\n'] + ("\t\t\t\ta: 1.0,0,0,0,0,1.0,0,0,0,0,1.0,0,0,0,0,1.0"@ + seq!['\n'] + ("\t\t\t}"@ + seq!['\n'] + ("\t\t}"@ + seq!['\n'] + nothing)))), step);
        assert(nothing + "\t\t\tNode: 1000001"@ =~= "\t\t\tNode: 1000001"@);
        assert(!"\t\t\tMatrix: *16 {"@.contains('\n')) by {
            reveal_strlit("\t\t\tMatrix: *16 {");
        }
        reading::scan_line(s6, nothing, "\t\t\tMatrix: *16 {"@, ("\t\t\t\ta: 1.0,0,0,0,0,1.0,0,0,0,0,1.0,0,0,0,0,1.0"@ + seq!['\n'] + ("\t\t\t}"@ + seq!['\n'] + ("\t\t}"@ + seq!['\n'] + nothing))), step);
        assert(nothing + "\t\t\tMatrix: *16 {"@ =~= "\t\t\tMatrix: *16 {"@);
        assert(!"\t\t\t\ta: 1.0,0,0,0,0,1.0,0,0,0,0,1.0,0,0,0,0,1.0"@.contains('\n')) by {
            reveal_strlit("\t\t\t\ta: 1.0,0,0,0,0,1.0,0,0,0,0,1.0,0,0,0,0,1.0");
        }
        reading::scan_line(s7, nothing, "\t\t\t\ta: 1.0,0,0,0,0,1.0,0,0,0,0,1.0,0,0,0,0,1.0"@, ("\t\t\t}"@ + seq!['\n'] + ("\t\t}"@ + seq!['\n'] + nothing)), step);
        assert(nothing + "\t\t\t\ta: 1.0,0,0,0,0,1.0,0,0,0,0,1.0,0,0,0,0,1.0"@ =~= "\t\t\t\ta: 1.0,0,0,0,0,1.0,0,0,0,0,1.0,0,0,0,0,1.0"@);
        assert(!"\t\t\t}"@.contains('\n')) by {
            reveal_strlit("\t\t\t}");
        }
        reading::scan_line(s8, nothing, "\t\t\t}"@, ("\t\t}"@ + seq!['\n'] + nothing), step);
        assert(nothing + "\t\t\t}"@ =~= "\t\t\t}"@);
        assert(!"\t\t}"@.contains('\n')) by {
            reveal_strlit("\t\t}");
        }
        reading::scan_line(s9, nothing, "\t\t}"@, nothing, step);
        assert(nothing + "\t\t}"@ =~= "\t\t}"@);
        reading::scan_nothing(s10, nothing, step);
    }
    assert(out + "\tPose: 4000000, \"Pose::BIND_POSES\", \"BindPose\" {\n\t\tType: \"BindPose\"\n\t\tVersion: 100\n\t\tNbPoseNodes: "@ + text::decimal(bones + 1) + "\n\t\tPoseNode:  {\n\t\t\tNode: 1000001\n\t\t\tMatrix: *16 {\n\t\t\t\ta: 1.0,0,0,0,0,1.0,0,0,0,0,1.0,0,0,0,0,1.0\n\t\t\t}\n\t\t}\n"@ == t3);
    assert(s10.heads =~= s0.heads + seq![pose_head()]);
    assert(s10.lists =~= s0.lists + seq![pose_list("1000001"@, identity_values())]);
    assert(s10.properties =~= s0.properties + Seq::empty());
    assert(s10.links =~= s0.links + Seq::empty());
    assert(s10.counts =~= s0.counts + seq![seq![text::decimal(bones + 1)]]);
}


/// The connections that every file has: the mesh stands in the scene, the
/// geometry on the mesh, and the skin on the geometry.
pub open spec fn fixed_links() -> Seq<Seq<Seq<char>>> {
    seq![
        seq!["1000001"@, "0"@],
        seq!["1000000"@, "1000001"@],
        seq!["1000002"@, "1000000"@],
    ]
}


proof fn fixed_links_are_read(out: Seq<char>)
    requires
        scanned(out).1.len() == 0,
    ensures
        scanned(out + "Connections:  {\n\t;Model::mesh, Model::RootNode\n\tC: \"OO\",1000001,0\n\t;Geometry::mesh, Model::mesh\n\tC: \"OO\",1000000,1000001\n\t;Deformer::skin, Geometry::mesh\n\tC: \"OO\",1000002,1000000\n"@).1.len() == 0,
        adds(
            scanned(out + "Connections:  {\n\t;Model::mesh, Model::RootNode\n\tC: \"OO\",1000001,0\n\t;Geometry::mesh, Model::mesh\n\tC: \"OO\",1000000,1000001\n\t;Deformer::skin, Geometry::mesh\n\tC: \"OO\",1000002,1000000\n"@).0,
            scanned(out).0,
            Seq::empty(),
            Seq::empty(),
            Seq::empty(),
            fixed_links(),
            Seq::empty(),
        ),
{
    let step = fbx_step();
    let nothing = Seq::<char>::empty();
    assert(scanned(out) == (scanned(out).0, nothing)) by {
        assert(scanned(out).1 =~= nothing);
    }
    let t0 = out;
    let s0 = scanned(out).0;
    let t1 = t0 + "Connections:  {\n\t;Model::mesh, Model::RootNode\n\tC: \"OO\",1000001,0\n\t;Geometry::mesh, Model::mesh\n\tC: \"OO\",1000000,1000001\n\t;Deformer::skin, Geometry::mesh\n\tC: \"OO\",1000002,1000000\n"@;
    let s1 = with_line(s0, "Connections:  {"@);
    assert(s1 == s0) by {
        assert(is_plain("Connections:  {"@)) by {
            reveal_strlit("Connections:  {");
            other_is_plain("Connections:  {"@, 0, 'C');
        }
        plain_is_skipped(s0, "Connections:  {"@);
    }
    let s2 = with_line(s1, "\t;Model::mesh, Model::RootNode"@);
    assert(s2 == s1) by {
        assert("\t;Model::mesh, Model::RootNode"@ == "\t;"@ + ("Model::mesh, Model::RootNode"@)) by {
            reveal_strlit("\t;Model::mesh, Model::RootNode");
            reveal_strlit("\t;");
            reveal_strlit("Model::mesh, Model::RootNode");
            assert("\t;Model::mesh, Model::RootNode"@ =~= "\t;"@ + "Model::mesh, Model::RootNode"@);
            assert("\t;Model::mesh, Model::RootNode"@ =~= "\t;"@ + ("Model::mesh, Model::RootNode"@));
        }
        note_line_is_read(s1, "Model::mesh, Model::RootNode"@);
    }
    let s3 = with_line(s2, "\tC: \"OO\",1000001,0"@);
    assert(s3 == (FbxReading { links: s2.links.push(seq!["1000001"@, "0"@]), ..s2 })) by {
        assert("\tC: \"OO\",1000001,0"@ == "\tC: \"OO\","@ + ("1000001,0"@)) by {
            reveal_strlit("\tC: \"OO\",1000001,0");
            reveal_strlit("\tC: \"OO\",");
            reveal_strlit("1000001,0");
            assert("\tC: \"OO\",1000001,0"@ =~= "\tC: \"OO\","@ + "1000001,0"@);
            assert("\tC: \"OO\",1000001,0"@ =~= "\tC: \"OO\","@ + ("1000001,0"@));
        }
        link_line_is_read(s2, "1000001,0"@);
        assert("1000001,0"@ == "1000001"@ + seq![','] + "0"@) by {
            reveal_strlit("1000001,0");
            reveal_strlit("1000001");
            reveal_strlit("0");
            assert("1000001,0"@ =~= "1000001"@ + seq![','] + "0"@);
        }
        assert(!"1000001"@.contains(',') && !"0"@.contains(',')) by {
            reveal_strlit("1000001");
            reveal_strlit("0");
        }
        two_are_split("1000001"@, "0"@, ',');
    }
    let s4 = with_line(s3, "\t;Geometry::mesh, Model::mesh"@);
    assert(s4 == s3) by {
        assert("\t;Geometry::mesh, Model::mesh"@ == "\t;"@ + ("Geometry::mesh, Model::mesh"@)) by {
            reveal_strlit("\t;Geometry::mesh, Model::mesh");
            reveal_strlit("\t;");
            reveal_strlit("Geometry::mesh, Model::mesh");
            assert("\t;Geometry::mesh, Model::mesh"@ =~= "\t;"@ + "Geometry::mesh, Model::mesh"@);
            assert("\t;Geometry::mesh, Model::mesh"@ =~= "\t;"@ + ("Geometry::mesh, Model::mesh"@));
        }
        note_line_is_read(s3, "Geometry::mesh, Model::mesh"@);
    }
    let s5 = with_line(s4, "\tC: \"OO\",1000000,1000001"@);
    assert(s5 == (FbxReading { links: s4.links.push(seq!["1000000"@, "1000001"@]), ..s4 })) by {
        assert("\tC: \"OO\",1000000,1000001"@ == "\tC: \"OO\","@ + ("1000000,1000001"@)) by {
            reveal_strlit("\tC: \"OO\",1000000,1000001");
            reveal_strlit("\tC: \"OO\",");
            reveal_strlit("1000000,1000001");
            assert("\tC: \"OO\",1000000,1000001"@ =~= "\tC: \"OO\","@ + "1000000,1000001"@);
            assert("\tC: \"OO\",1000000,1000001"@ =~= "\tC: \"OO\","@ + ("1000000,1000001"@));
        }
        link_line_is_read(s4, "1000000,1000001"@);
        assert("1000000,1000001"@ == "1000000"@ + seq![','] + "1000001"@) by {
            reveal_strlit("1000000,1000001");
            reveal_strlit("1000000");
            reveal_strlit("1000001");
            assert("1000000,1000001"@ =~= "1000000"@ + seq![','] + "1000001"@);
        }
        assert(!"1000000"@.contains(',') && !"1000001"@.contains(',')) by {
            reveal_strlit("1000000");
            reveal_strlit("1000001");
        }
        two_are_split("1000000"@, "1000001"@, ',');
    }
    let s6 = with_line(s5, "\t;Deformer::skin, Geometry::mesh"@);
    assert(s6 == s5) by {
        assert("\t;Deformer::skin, Geometry::mesh"@ == "\t;"@ + ("Deformer::skin, Geometry::mesh"@)) by {
            reveal_strlit("\t;Deformer::skin, Geometry::mesh");
            reveal_strlit("\t;");
            reveal_strlit("Deformer::skin, Geometry::mesh");
            assert("\t;Deformer::skin, Geometry::mesh"@ =~= "\t;"@ + "Deformer::skin, Geometry::mesh"@);
            assert("\t;Deformer::skin, Geometry::mesh"@ =~= "\t;"@ + ("Deformer::skin, Geometry::mesh"@));
        }
        note_line_is_read(s5, "Deformer::skin, Geometry::mesh"@);
    }
    let s7 = with_line(s6, "\tC: \"OO\",1000002,1000000"@);
    assert(s7 == (FbxReading { links: s6.links.push(seq!["1000002"@, "1000000"@]), ..s6 })) by {
        assert("\tC: \"OO\",1000002,1000000"@ == "\tC: \"OO\","@ + ("1000002,1000000"@)) by {
            reveal_strlit("\tC: \"OO\",1000002,1000000");
            reveal_strlit("\tC: \"OO\",");
            reveal_strlit("1000002,1000000");
            assert("\tC: \"OO\",1000002,1000000"@ =~= "\tC: \"OO\","@ + "1000002,1000000"@);
            assert("\tC: \"OO\",1000002,1000000"@ =~= "\tC: \"OO\","@ + ("1000002,1000000"@));
        }
        link_line_is_read(s6, "1000002,1000000"@);
        assert("1000002,1000000"@ == "1000002"@ + seq![','] + "1000000"@) by {
            reveal_strlit("1000002,1000000");
            reveal_strlit("1000002");
            reveal_strlit("1000000");
            assert("1000002,1000000"@ =~= "1000002"@ + seq![','] + "1000000"@);
        }
        assert(!"1000002"@.contains(',') && !"1000000"@.contains(',')) by {
            reveal_strlit("1000002");
            reveal_strlit("1000000");
        }
        two_are_split("1000002"@, "1000000"@, ',');
    }
    assert(scanned(t1) == (s7, nothing)) by {
        reading::scan_more(t0, "Connections:  {\n\t;Model::mesh, Model::RootNode\n\tC: \"OO\",1000001,0\n\t;Geometry::mesh, Model::mesh\n\tC: \"OO\",1000000,1000001\n\t;Deformer::skin, Geometry::mesh\n\tC: \"OO\",1000002,1000000\n"@, unread(), step);
        assert("Connections:  {\n\t;Model::mesh, Model::RootNode\n\tC: \"OO\",1000001,0\n\t;Geometry::mesh, Model::mesh\n\tC: \"OO\",1000000,1000001\n\t;Deformer::skin, Geometry::mesh\n\tC: \"OO\",1000002,1000000\n"@ == "Connections:  {"@ + seq!['\n'] + ("\t;Model::mesh, Model::RootNode"@ + seq!['\n'] + ("\tC: \"OO\",1000001,0"@ + seq!['\n'] + ("\t;Geometry::mesh, Model::mesh"@ + seq!['\n'] + ("\tC: \"OO\",1000000,1000001"@ + seq!['\n'] + ("\t;Deformer::skin, Geometry::mesh"@ + seq!['\n'] + ("\tC: \"OO\",1000002,1000000"@ + seq!['\n'] + nothing))))))) by {
            reveal_strlit("Connections:  {\n\t;Model::mesh, Model::RootNode\n\tC: \"OO\",1000001,0\n\t;Geometry::mesh, Model::mesh\n\tC: \"OO\",1000000,1000001\n\t;Deformer::skin, Geometry::mesh\n\tC: \"OO\",1000002,1000000\n");
            reveal_strlit("\t;Deformer::skin, Geometry::mesh");
            reveal_strlit("\t;Geometry::mesh, Model::mesh");
            reveal_strlit("\t;Model::mesh, Model::RootNode");
            reveal_strlit("\tC: \"OO\",1000000,1000001");
            reveal_strlit("\tC: \"OO\",1000001,0");
            reveal_strlit("\tC: \"OO\",1000002,1000000");
            reveal_strlit("Connections:  {");
            assert("Connections:  {\n\t;Model::mesh, Model::RootNode\n\tC: \"OO\",1000001,0\n\t;Geometry::mesh, Model::mesh\n\tC: \"OO\",1000000,1000001\n\t;Deformer::skin, Geometry::mesh\n\tC: \"OO\",1000002,1000000\n"@ =~= "Connections:  {"@ + seq!['\n'] + ("\t;Model::mesh, Model::RootNode"@ + seq!['\n'] + ("\tC: \"OO\",1000001,0"@ + seq!['\n'] + ("\t;Geometry::mesh, Model::mesh"@ + seq!['\n'] + ("\tC: \"OO\",1000000,1000001"@ + seq!['\n'] + ("\t;Deformer::skin, Geometry::mesh"@ + seq!['\n'] + ("\tC: \"OO\",1000002,1000000"@ + seq!['\n'] + nothing)))))));
        }
        assert(!"Connections:  {"@.contains('\n')) by {
            reveal_strlit("Connections:  {");
        }
        reading::scan_line(s0, nothing, "Connections:  {"@, ("\t;Model::mesh, Model::RootNode"@ + seq!['\n'] + ("\tC: \"OO\",1000001,0"@ + seq!['\n'] + ("\t;Geometry::mesh, Model::mesh"@ + seq!['\n'] + ("\tC: \"OO\",1000000,1000001"@ + seq!['\n'] + ("\t;Deformer::skin, Geometry::mesh"@ + seq!['\n'] + ("\tC: \"OO\",1000002,1000000"@ + seq!['\n'] + nothing)))))), step);
        assert(nothing + "Connections:  {"@ =~= "Connections:  {"@);
        assert(!"\t;Model::mesh, Model::RootNode"@.contains('\n')) by {
            reveal_strlit("\t;Model::mesh, Model::RootNode");
        }
        reading::scan_line(s1, nothing, "\t;Model::mesh, Model::RootNode"@, ("\tC: \"OO\",1000001,0"@ + seq!['\n'] + ("\t;Geometry::mesh, Model::mesh"@ + seq!['\n'] + ("\tC: \"OO\",1000000,1000001"@ + seq!['\n'] + ("\t;Deformer::skin, Geometry::mesh"@ + seq!['\n'] + ("\tC: \"OO\",1000002,1000000"@ + seq!['\n'] + nothing))))), step);
        assert(nothing + "\t;Model::mesh, Model::RootNode"@ =~= "\t;Model::mesh, Model::RootNode"@);
        assert(!"\tC: \"OO\",1000001,0"@.contains('\n')) by {
            reveal_strlit("\tC: \"OO\",1000001,0");
        }
        reading::scan_line(s2, nothing, "\tC: \"OO\",1000001,0"@, ("\t;Geometry::mesh, Model::mesh"@ + seq!['\n'] + ("\tC: \"OO\",1000000,1000001"@ + seq!['\n'] + ("\t;Deformer::skin, Geometry::mesh"@ + seq!['\n'] + ("\tC: \"OO\",1000002,1000000"@ + seq!['\n'] + nothing)))), step);
        assert(nothing + "\tC: \"OO\",1000001,0"@ =~= "\tC: \"OO\",1000001,0"@);
        assert(!"\t;Geometry::mesh, Model::mesh"@.contains('\n')) by {
            reveal_strlit("\t;Geometry::mesh, Model::mesh");
        }
        reading::scan_line(s3, nothing, "\t;Geometry::mesh, Model::mesh"@, ("\tC: \"OO\",1000000,1000001"@ + seq!['\n'] + ("\t;Deformer::skin, Geometry::mesh"@ + seq!['\n'] + ("\tC: \"OO\",1000002,1000000"@ + seq!['\n'] + nothing))), step);
        assert(nothing + "\t;Geometry::mesh, Model::mesh"@ =~= "\t;Geometry::mesh, Model::mesh"@);
        assert(!"\tC: \"OO\",1000000,1000001"@.contains('\n')) by {
            reveal_strlit("\tC: \"OO\",1000000,1000001");
        }
        reading::scan_line(s4, nothing, "\tC: \"OO\",1000000,1000001"@, ("\t;Deformer::skin, Geometry::mesh"@ + seq!['\n'] + ("\tC: \"OO\",1000002,1000000"@ + seq!['\n'] + nothing)), step);
        assert(nothing + "\tC: \"OO\",1000000,1000001"@ =~= "\tC: \"OO\",1000000,1000001"@);
        assert(!"\t;Deformer::skin, Geometry::mesh"@.contains('\n')) by {
            reveal_strlit("\t;Deformer::skin, Geometry::mesh");
        }
        reading::scan_line(s5, nothing, "\t;Deformer::skin, Geometry::mesh"@, ("\tC: \"OO\",1000002,1000000"@ + seq!['\n'] + nothing), step);
        assert(nothing + "\t;Deformer::skin, Geometry::mesh"@ =~= "\t;Deformer::skin, Geometry::mesh"@);
        assert(!"\tC: \"OO\",1000002,1000000"@.contains('\n')) by {
            reveal_strlit("\tC: \"OO\",1000002,1000000");
        }
        reading::scan_line(s6, nothing, "\tC: \"OO\",1000002,1000000"@, nothing, step);
        assert(nothing + "\tC: \"OO\",1000002,1000000"@ =~= "\tC: \"OO\",1000002,1000000"@);
        reading::scan_nothing(s7, nothing, step);
    }
    assert(out + "Connections:  {\n\t;Model::mesh, Model::RootNode\n\tC: \"OO\",1000001,0\n\t;Geometry::mesh, Model::mesh\n\tC: \"OO\",1000000,1000001\n\t;Deformer::skin, Geometry::mesh\n\tC: \"OO\",1000002,1000000\n"@ == t1);
    assert(s7.heads =~= s0.heads + Seq::empty());
    assert(s7.lists =~= s0.lists + Seq::empty());
    assert(s7.properties =~= s0.properties + Seq::empty());
    assert(s7.links =~= s0.links + fixed_links());
    assert(s7.counts =~= s0.counts + Seq::empty());
}

proof fn objects_start_is_read(out: Seq<char>)
    requires
        scanned(out).1.len() == 0,
    ensures
        scanned(out + "Objects:  {\n"@) == (scanned(out).0, Seq::<char>::empty()),
{
    let step = fbx_step();
    let nothing = Seq::<char>::empty();
    assert(scanned(out) == (scanned(out).0, nothing)) by {
        assert(scanned(out).1 =~= nothing);
    }
    let t0 = out;
    let s0 = scanned(out).0;
    let t1 = t0 + "Objects:  {\n"@;
    let s1 = with_line(s0, "Objects:  {"@);
    assert(s1 == s0) by {
        assert(is_plain("Objects:  {"@)) by {
            reveal_strlit("Objects:  {");
            other_is_plain("Objects:  {"@, 0, 'O');
        }
        plain_is_skipped(s0, "Objects:  {"@);
    }
    assert(scanned(t1) == (s1, nothing)) by {
        reading::scan_more(t0, "Objects:  {\n"@, unread(), step);
        assert("Objects:  {\n"@ == "Objects:  {"@ + seq!['\n'] + nothing) by {
            reveal_strlit("Objects:  {\n");
            reveal_strlit("Objects:  {");
            assert("Objects:  {\n"@ =~= "Objects:  {"@ + seq!['\n'] + nothing);
        }
        assert(!"Objects:  {"@.contains('\n')) by {
            reveal_strlit("Objects:  {");
        }
        reading::scan_line(s0, nothing, "Objects:  {"@, nothing, step);
        assert(nothing + "Objects:  {"@ =~= "Objects:  {"@);
        reading::scan_nothing(s1, nothing, step);
    }
    assert(out + "Objects:  {\n"@ == t1);
}

proof fn pose_end_is_read(out: Seq<char>)
    requires
        scanned(out).1.len() == 0,
    ensures
        scanned(out + "\t}\n"@) == (scanned(out).0, Seq::<char>::empty()),
{
    let step = fbx_step();
    let nothing = Seq::<char>::empty();
    assert(scanned(out) == (scanned(out).0, nothing)) by {
        assert(scanned(out).1 =~= nothing);
    }
    let t0 = out;
    let s0 = scanned(out).0;
    let t1 = t0 + "\t}\n"@;
    let s1 = with_line(s0, "\t}"@);
    assert(s1 == s0) by {
        assert(is_plain("\t}"@)) by {
            reveal_strlit("\t}");
            other_is_plain("\t}"@, 1, '}');
        }
        plain_is_skipped(s0, "\t}"@);
    }
    assert(scanned(t1) == (s1, nothing)) by {
        reading::scan_more(t0, "\t}\n"@, unread(), step);
        assert("\t}\n"@ == "\t}"@ + seq!['\n'] + nothing) by {
            reveal_strlit("\t}\n");
            reveal_strlit("\t}");
            assert("\t}\n"@ =~= "\t}"@ + seq!['\n'] + nothing);
        }
        assert(!"\t}"@.contains('\n')) by {
            reveal_strlit("\t}");
        }
        reading::scan_line(s0, nothing, "\t}"@, nothing, step);
        assert(nothing + "\t}"@ =~= "\t}"@);
        reading::scan_nothing(s1, nothing, step);
    }
    assert(out + "\t}\n"@ == t1);
}

proof fn objects_end_is_read(out: Seq<char>)
    requires
        scanned(out).1.len() == 0,
    ensures
        scanned(out + "}\n\n"@) == (scanned(out).0, Seq::<char>::empty()),
{
    let step = fbx_step();
    let nothing = Seq::<char>::empty();
    assert(scanned(out) == (scanned(out).0, nothing)) by {
        assert(scanned(out).1 =~= nothing);
    }
    let t0 = out;
    let s0 = scanned(out).0;
    let t1 = t0 + "}\n\n"@;
    let s1 = with_line(s0, "}"@);
    assert(s1 == s0) by {
        assert(is_plain("}"@)) by {
            reveal_strlit("}");
            other_is_plain("}"@, 0, '}');
        }
        plain_is_skipped(s0, "}"@);
    }
    let s2 = with_line(s1, nothing);
    empty_is_skipped(s1);
    assert(scanned(t1) == (s2, nothing)) by {
        reading::scan_more(t0, "}\n\n"@, unread(), step);
        assert("}\n\n"@ == "}"@ + seq!['\n'] + (nothing + seq!['\n'] + nothing)) by {
            reveal_strlit("}\n\n");
            reveal_strlit("}");
            assert("}\n\n"@ =~= "}"@ + seq!['\n'] + (nothing + seq!['\n'] + nothing));
        }
        assert(!"}"@.contains('\n')) by {
            reveal_strlit("}");
        }
        reading::scan_line(s0, nothing, "}"@, (nothing + seq!['\n'] + nothing), step);
        assert(nothing + "}"@ =~= "}"@);
        reading::scan_line(s1, nothing, nothing, nothing, step);
        assert(nothing + nothing =~= nothing);
        reading::scan_nothing(s2, nothing, step);
    }
    assert(out + "}\n\n"@ == t1);
}

proof fn file_end_is_read(out: Seq<char>)
    requires
        scanned(out).1.len() == 0,
    ensures
        scanned(out + "}\n"@) == (scanned(out).0, Seq::<char>::empty()),
{
    let step = fbx_step();
    let nothing = Seq::<char>::empty();
    assert(scanned(out) == (scanned(out).0, nothing)) by {
        assert(scanned(out).1 =~= nothing);
    }
    let t0 = out;
    let s0 = scanned(out).0;
    let t1 = t0 + "}\n"@;
    let s1 = with_line(s0, "}"@);
    assert(s1 == s0) by {
        assert(is_plain("}"@)) by {
            reveal_strlit("}");
            other_is_plain("}"@, 0, '}');
        }
        plain_is_skipped(s0, "}"@);
    }
    assert(scanned(t1) == (s1, nothing)) by {
        reading::scan_more(t0, "}\n"@, unread(), step);
        assert("}\n"@ == "}"@ + seq!['\n'] + nothing) by {
            reveal_strlit("}\n");
            reveal_strlit("}");
            assert("}\n"@ =~= "}"@ + seq!['\n'] + nothing);
        }
        assert(!"}"@.contains('\n')) by {
            reveal_strlit("}");
        }
        reading::scan_line(s0, nothing, "}"@, nothing, step);
        assert(nothing + "}"@ =~= "}"@);
        reading::scan_nothing(s1, nothing, step);
    }
    assert(out + "}\n"@ == t1);
}


// ── the whole file ────────────────────────────────────────────────────────────

proof fn limbs_are_read(out: Seq<char>, bones: Seq<Bone>, numbers: FbxNumbers, n: nat)
    requires
        scanned(out).1.len() == 0,
        n <= bones.len(),
        names_fit(bones),
        bone_numbers_fit(numbers, bones.len()),
    ensures
        scanned(fbx::limbs_text(out, bones, numbers, n)).1.len() == 0,
        adds(
            scanned(fbx::limbs_text(out, bones, numbers, n)).0,
            scanned(out).0,
            Seq::new(n, |b: int| limb_head(bones, b)),
            Seq::empty(),
            bytes::flat(n, |b: int| limb_properties(numbers, b)),
            Seq::empty(),
            Seq::empty(),
        ),
    decreases n,
{
    let known = scanned(out).0;
    let heads = |b: int| limb_head(bones, b);
    let found = scanned(fbx::limbs_text(out, bones, numbers, n)).0;
    if n > 0 {
        let before = fbx::limbs_text(out, bones, numbers, (n - 1) as nat);
        limbs_are_read(out, bones, numbers, (n - 1) as nat);
        limb_is_read(before, bones, numbers, n - 1);
        assert(Seq::new(n, heads) =~= Seq::new((n - 1) as nat, heads) + seq![heads(n - 1)]);
    } else {
        assert(Seq::new(0, heads) =~= Seq::empty());
    }
    assert(found.heads =~= known.heads + Seq::new(n, heads));
    assert(found.lists =~= known.lists + Seq::empty());
    assert(found.properties =~= known.properties + bytes::flat(
        n,
        |b: int| limb_properties(numbers, b),
    ));
    assert(found.links =~= known.links + Seq::empty());
    assert(found.counts =~= known.counts + Seq::empty());
}

proof fn all_clusters_are_read(
    out: Seq<char>,
    bones: Seq<Bone>,
    numbers: FbxNumbers,
    sets: Seq<VertexInfluences>,
    n: nat,
)
    requires
        scanned(out).1.len() == 0,
        n <= bones.len(),
        names_fit(bones),
        bone_numbers_fit(numbers, bones.len()),
        weights_are_numbers(numbers.weights@),
        numbers.weights@.len() == sets.len(),
    ensures
        scanned(fbx::clusters_text(out, bones, numbers, sets, n)).1.len() == 0,
        adds(
            scanned(fbx::clusters_text(out, bones, numbers, sets, n)).0,
            scanned(out).0,
            Seq::new(n, |b: int| cluster_head(bones, b)),
            bytes::flat(n, |b: int| cluster_lists(numbers, b, fbx::entries_of(sets, b))),
            Seq::empty(),
            Seq::empty(),
            Seq::empty(),
        ),
    decreases n,
{
    let known = scanned(out).0;
    let heads = |b: int| cluster_head(bones, b);
    let found = scanned(fbx::clusters_text(out, bones, numbers, sets, n)).0;
    if n > 0 {
        let before = fbx::clusters_text(out, bones, numbers, sets, (n - 1) as nat);
        all_clusters_are_read(out, bones, numbers, sets, (n - 1) as nat);
        fbx::cluster_in_range(sets, n - 1, sets.len());
        cluster_is_read(before, bones, numbers, n - 1, fbx::entries_of(sets, n - 1));
        assert(Seq::new(n, heads) =~= Seq::new((n - 1) as nat, heads) + seq![heads(n - 1)]);
    } else {
        assert(Seq::new(0, heads) =~= Seq::empty());
    }
    assert(found.heads =~= known.heads + Seq::new(n, heads));
    assert(found.lists =~= known.lists + bytes::flat(
        n,
        |b: int| cluster_lists(numbers, b, fbx::entries_of(sets, b)),
    ));
    assert(found.properties =~= known.properties + Seq::empty());
    assert(found.links =~= known.links + Seq::empty());
    assert(found.counts =~= known.counts + Seq::empty());
}

proof fn pose_nodes_are_read(out: Seq<char>, numbers: FbxNumbers, n: nat)
    requires
        scanned(out).1.len() == 0,
        bone_numbers_fit(numbers, numbers.global_binds@.len()),
        n <= numbers.global_binds@.len(),
    ensures
        scanned(fbx::pose_nodes_text(out, numbers, n)).1.len() == 0,
        adds(
            scanned(fbx::pose_nodes_text(out, numbers, n)).0,
            scanned(out).0,
            Seq::empty(),
            Seq::new(n, |b: int| limb_pose(numbers, b)),
            Seq::empty(),
            Seq::empty(),
            Seq::empty(),
        ),
    decreases n,
{
    let known = scanned(out).0;
    let poses = |b: int| limb_pose(numbers, b);
    let found = scanned(fbx::pose_nodes_text(out, numbers, n)).0;
    if n > 0 {
        let before = fbx::pose_nodes_text(out, numbers, (n - 1) as nat);
        pose_nodes_are_read(out, numbers, (n - 1) as nat);
        assert(are_numbers(numbers.global_binds@[n - 1]@));
        pose_node_is_read(before, numbers, n - 1);
        assert(Seq::new(n, poses) =~= Seq::new((n - 1) as nat, poses) + seq![poses(n - 1)]);
    } else {
        assert(Seq::new(0, poses) =~= Seq::empty());
    }
    assert(found.heads =~= known.heads + Seq::empty());
    assert(found.lists =~= known.lists + Seq::new(n, poses));
    assert(found.properties =~= known.properties + Seq::empty());
    assert(found.links =~= known.links + Seq::empty());
    assert(found.counts =~= known.counts + Seq::empty());
}

proof fn limb_links_are_read(out: Seq<char>, bones: Seq<Bone>, n: nat)
    requires
        scanned(out).1.len() == 0,
        n <= bones.len(),
        names_fit(bones),
    ensures
        scanned(fbx::limb_connections_text(out, bones, n)).1.len() == 0,
        adds(
            scanned(fbx::limb_connections_text(out, bones, n)).0,
            scanned(out).0,
            Seq::empty(),
            Seq::empty(),
            Seq::empty(),
            Seq::new(n, |b: int| limb_link(bones, b)),
            Seq::empty(),
        ),
    decreases n,
{
    let known = scanned(out).0;
    let links = |b: int| limb_link(bones, b);
    let found = scanned(fbx::limb_connections_text(out, bones, n)).0;
    if n > 0 {
        let before = fbx::limb_connections_text(out, bones, (n - 1) as nat);
        limb_links_are_read(out, bones, (n - 1) as nat);
        limb_link_is_read(before, bones, n - 1);
        assert(Seq::new(n, links) =~= Seq::new((n - 1) as nat, links) + seq![links(n - 1)]);
    } else {
        assert(Seq::new(0, links) =~= Seq::empty());
    }
    assert(found.heads =~= known.heads + Seq::empty());
    assert(found.lists =~= known.lists + Seq::empty());
    assert(found.properties =~= known.properties + Seq::empty());
    assert(found.links =~= known.links + Seq::new(n, links));
    assert(found.counts =~= known.counts + Seq::empty());
}

proof fn all_cluster_links_are_read(out: Seq<char>, bones: Seq<Bone>, n: nat)
    requires
        scanned(out).1.len() == 0,
        n <= bones.len(),
        names_fit(bones),
    ensures
        scanned(fbx::cluster_connections_text(out, bones, n)).1.len() == 0,
        adds(
            scanned(fbx::cluster_connections_text(out, bones, n)).0,
            scanned(out).0,
            Seq::empty(),
            Seq::empty(),
            Seq::empty(),
            bytes::flat(n, |b: int| cluster_links(b)),
            Seq::empty(),
        ),
    decreases n,
{
    let known = scanned(out).0;
    let found = scanned(fbx::cluster_connections_text(out, bones, n)).0;
    if n > 0 {
        let before = fbx::cluster_connections_text(out, bones, (n - 1) as nat);
        all_cluster_links_are_read(out, bones, (n - 1) as nat);
        cluster_links_are_read(before, bones, n - 1);
    }
    assert(found.heads =~= known.heads + Seq::empty());
    assert(found.lists =~= known.lists + Seq::empty());
    assert(found.properties =~= known.properties + Seq::empty());
    assert(found.links =~= known.links + bytes::flat(n, |b: int| cluster_links(b)));
    assert(found.counts =~= known.counts + Seq::empty());
}

/// Whether everything that goes into a file can stand in its lines: no name
/// holds a line break, and no number a comma or a line break.
pub open spec fn can_be_read(mesh: SkinnedMesh, bones: Seq<Bone>, numbers: FbxNumbers) -> bool {
    &&& names_fit(bones)
    &&& bone_numbers_fit(numbers, bones.len())
    &&& are_numbers(numbers.positions@)
    &&& are_numbers(numbers.normals@)
    &&& are_numbers(numbers.uvs@)
    &&& weights_are_numbers(numbers.weights@)
    &&& numbers.weights@.len() == mesh.influences@.len()
}

/// The file reads back: the heads of all objects, their lists and properties,
/// the connections between them, and the declared counts, and nothing else.
pub proof fn file_reads_back(mesh: SkinnedMesh, bones: Seq<Bone>, numbers: FbxNumbers)
    requires
        can_be_read(mesh, bones, numbers),
    ensures
        ({
            let n = bones.len();
            let found = read_fbx(fbx::file_text(mesh, bones, numbers));
            &&& found.heads == seq![geometry_head(), model_head()] + Seq::new(
                n,
                |b: int| limb_head(bones, b),
            ) + seq![skin_head()] + Seq::new(n, |b: int| cluster_head(bones, b)) + seq![pose_head()]
            &&& found.lists == geometry_lists(mesh, numbers) + bytes::flat(
                n,
                |b: int| cluster_lists(numbers, b, fbx::entries_of(mesh.influences@, b)),
            ) + seq![pose_list("1000001"@, identity_values())] + Seq::new(
                n,
                |b: int| limb_pose(numbers, b),
            )
            &&& found.properties == seq![model_property()] + bytes::flat(
                n,
                |b: int| limb_properties(numbers, b),
            )
            &&& found.links == fixed_links() + Seq::new(n, |b: int| limb_link(bones, b))
                + bytes::flat(n, |b: int| cluster_links(b))
            &&& found.counts == declared_counts(n) + seq![seq![text::decimal(n + 1)]]
        }),
{
    let n = bones.len();
    let nothing = ""@;
    reveal_strlit("");
    assert(nothing =~= Seq::empty());
    reading::scan_nothing(unread(), Seq::empty(), fbx_step());
    assert(scanned(nothing) == (unread(), Seq::<char>::empty()));
    header_is_read(nothing);
    let t1 = fbx::header_text(nothing);
    definitions_are_read(t1, n);
    let t2 = fbx::definitions_text(t1, n);
    objects_start_is_read(t2);
    let t3 = t2 + "Objects:  {\n"@;
    geometry_is_read(t3, mesh, numbers);
    let t4 = fbx::geometry_text(t3, mesh, numbers);
    mesh_model_is_read(t4);
    let t5 = fbx::mesh_model_text(t4);
    limbs_are_read(t5, bones, numbers, n);
    let t6 = fbx::limbs_text(t5, bones, numbers, n);
    skin_is_read(t6);
    let t7 = fbx::skin_deformer_text(t6);
    all_clusters_are_read(t7, bones, numbers, mesh.influences@, n);
    let t8 = fbx::clusters_text(t7, bones, numbers, mesh.influences@, n);
    pose_start_is_read(t8, n);
    let t9 = t8 + "\tPose: 4000000, \"Pose::BIND_POSES\", \"BindPose\" {\n\t\tType: \"BindPose\"\n\t\tVersion: 100\n\t\tNbPoseNodes: "@ + text::decimal(n + 1) + "\n\t\tPoseNode:  {\n\t\t\tNode: 1000001\n\t\t\tMatrix: *16 {\n\t\t\t\ta: 1.0,0,0,0,0,1.0,0,0,0,0,1.0,0,0,0,0,1.0\n\t\t\t}\n\t\t}\n"@;
    pose_nodes_are_read(t9, numbers, n);
    let t10 = fbx::pose_nodes_text(t9, numbers, n);
    pose_end_is_read(t10);
    let t11 = t10 + "\t}\n"@;
    assert(t11 == fbx::bind_pose_text(t8, numbers, n));
    objects_end_is_read(t11);
    let t12 = t11 + "}\n\n"@;
    fixed_links_are_read(t12);
    let t13 = t12 + "Connections:  {\n\t;Model::mesh, Model::RootNode\n\tC: \"OO\",1000001,0\n\t;Geometry::mesh, Model::mesh\n\tC: \"OO\",1000000,1000001\n\t;Deformer::skin, Geometry::mesh\n\tC: \"OO\",1000002,1000000\n"@;
    limb_links_are_read(t13, bones, n);
    let t14 = fbx::limb_connections_text(t13, bones, n);
    all_cluster_links_are_read(t14, bones, n);
    let t15 = fbx::cluster_connections_text(t14, bones, n);
    file_end_is_read(t15);
    let t16 = t15 + "}\n"@;
    assert(t16 == fbx::file_text(mesh, bones, numbers));
    let found = scanned(t16).0;
    assert(found.heads =~= seq![geometry_head(), model_head()] + Seq::new(
        n,
        |b: int| limb_head(bones, b),
    ) + seq![skin_head()] + Seq::new(n, |b: int| cluster_head(bones, b)) + seq![pose_head()]);
    assert(found.lists =~= geometry_lists(mesh, numbers) + bytes::flat(
        n,
        |b: int| cluster_lists(numbers, b, fbx::entries_of(mesh.influences@, b)),
    ) + seq![pose_list("1000001"@, identity_values())] + Seq::new(
        n,
        |b: int| limb_pose(numbers, b),
    ));
    assert(found.properties =~= seq![model_property()] + bytes::flat(
        n,
        |b: int| limb_properties(numbers, b),
    ));
    assert(found.links =~= fixed_links() + Seq::new(n, |b: int| limb_link(bones, b))
        + bytes::flat(n, |b: int| cluster_links(b)));
    assert(found.counts =~= declared_counts(n) + seq![seq![text::decimal(n + 1)]]);
}

// ── what it says ──────────────────────────────────────────────────────────────

/// The vertex that an entry of a polygon list stands for: a negative entry ends
/// a polygon and holds the complement of its vertex.
pub open spec fn entry_vertex(entry: int) -> int {
    if entry < 0 {
        -entry - 1
    } else {
        entry
    }
}

/// The polygon list decodes to the triangles of the mesh: each entry stands for
/// its index, and every third one ends a polygon.
pub proof fn polygons_decode_to_triangles(indices: Seq<u32>, j: int)
    requires
        0 <= j < 3 * (indices.len() / 3),
        indices[j] < 0x8000_0000,
    ensures
        polygons(indices).len() == 3 * (indices.len() / 3),
        entry_vertex(reading::signed_value(polygons(indices)[j])) == indices[j],
        reading::signed_value(polygons(indices)[j]) < 0 <==> j % 3 == 2,
{
    reading::signed_decimal_reads_back(fbx::polygon_entry(indices, j));
}

/// A limb is connected to the limb of its parent, or to the scene where it has
/// none; a cluster to the skin, and its limb to it.
pub proof fn links_follow_the_bones(bones: Seq<Bone>, b: int)
    requires
        0 <= b < bones.len(),
    ensures
        reading::value(limb_link(bones, b)[0]) == 2_000_000 + b,
        bones[b].parent matches Some(p) ==> reading::value(limb_link(bones, b)[1]) == 2_000_000 + p,
        bones[b].parent is None ==> reading::value(limb_link(bones, b)[1]) == 0,
        cluster_links(b).len() == 2,
        reading::value(cluster_links(b)[0][0]) == 3_000_000 + b,
        cluster_links(b)[0][1] == "1000002"@,
        reading::value(cluster_links(b)[1][0]) == 2_000_000 + b,
        reading::value(cluster_links(b)[1][1]) == 3_000_000 + b,
        reading::value(limb_head(bones, b).id) == 2_000_000 + b,
        reading::value(cluster_head(bones, b).id) == 3_000_000 + b,
{
    reading::decimal_reads_back((fbx::LIMB_BASE + b) as nat);
    reading::decimal_reads_back((fbx::CLUSTER_BASE + b) as nat);
    reading::decimal_reads_back(fbx::parent_id(bones, b));
}

/// The declared counts: two objects per bone and five more in all, the mesh and
/// every limb as models, the skin and every cluster as deformers, and the mesh
/// and every limb in the pose.
pub proof fn declared_counts_hold(bones: nat)
    ensures
        reading::value(declared_counts(bones)[0][0]) == 2 * bones + 5,
        reading::value(declared_counts(bones)[2][3]) == bones + 1,
        reading::value(declared_counts(bones)[3][3]) == bones + 1,
        reading::value(text::decimal(bones + 1)) == bones + 1,
{
    reading::decimal_reads_back(2 * bones + 5);
    reading::decimal_reads_back(bones + 1);
}

/// Whether slot `k` of vertex `v` gives weight to a bone.
pub open spec fn gives_weight(sets: Seq<VertexInfluences>, bone: int, v: int, k: int) -> bool {
    &&& 0 <= v < sets.len() && 0 <= k < 4
    &&& sets[v]@[k].bone == bone
    &&& crate::scalar::Scalar::zero().spec_lt(sets[v]@[k].weight)
}

proof fn slots_are_those_with_weight(
    set: Seq<Influence>,
    v: int,
    bone: u16,
    n: nat,
    k: int,
)
    requires
        n <= set.len(),
    ensures
        fbx::slots_feeding(set, v, bone, n).contains((v, k)) <==> 0 <= k < n && set[k].bone == bone
            && crate::scalar::Scalar::zero().spec_lt(set[k].weight),
        forall|i: int, j: int|
            0 <= i < j < fbx::slots_feeding(set, v, bone, n).len() ==> fbx::slots_feeding(
                set,
                v,
                bone,
                n,
            )[i].1 < fbx::slots_feeding(set, v, bone, n)[j].1,
        forall|i: int|
            0 <= i < fbx::slots_feeding(set, v, bone, n).len() ==> (#[trigger] fbx::slots_feeding(
                set,
                v,
                bone,
                n,
            )[i]).0 == v && 0 <= fbx::slots_feeding(set, v, bone, n)[i].1 < n,
    decreases n,
{
    if n > 0 {
        slots_are_those_with_weight(set, v, bone, (n - 1) as nat, k);
        let before = fbx::slots_feeding(set, v, bone, (n - 1) as nat);
        let after = fbx::slots_feeding(set, v, bone, n);
        let last = (v, n - 1);
        if before.contains((v, k)) {
            assert(before.push(last)[before.index_of((v, k))] == (v, k));
        }
        assert(before.push(last)[before.len() as int] == last);
        if after.contains((v, k)) && k != n - 1 {
            assert(before[after.index_of((v, k))] == (v, k));
        }
        if after.contains((v, k)) && k == n - 1 {
            let i = after.index_of((v, k));
            if i < before.len() {
                assert(before[i].1 < n - 1);
            }
        }
    }
}

proof fn first_clusters_hold(sets: Seq<VertexInfluences>, bone: int, n: nat, v: int, k: int)
    requires
        0 <= bone <= u16::MAX,
        n <= sets.len(),
    ensures
        ({
            let list = bytes::flat(n, |v: int| fbx::slots_feeding(sets[v]@, v, bone as u16, 4));
            &&& list.contains((v, k)) <==> v < n && gives_weight(sets, bone, v, k)
            &&& forall|i: int| 0 <= i < list.len() ==> 0 <= (#[trigger] list[i]).0 < n
            &&& forall|i: int, j: int|
                0 <= i < j < list.len() ==> (#[trigger] list[i]).0 < (#[trigger] list[j]).0
                    || list[i].0 == list[j].0 && list[i].1 < list[j].1
        }),
    decreases n,
{
    if n > 0 {
        first_clusters_hold(sets, bone, (n - 1) as nat, v, k);
        let f = |v: int| fbx::slots_feeding(sets[v]@, v, bone as u16, 4);
        let before = bytes::flat((n - 1) as nat, f);
        let own = f(n - 1);
        let list = bytes::flat(n, f);
        assert(list == before + own);
        slots_are_those_with_weight(sets[n - 1]@, n - 1, bone as u16, 4, k);
        if before.contains((v, k)) {
            assert(list[before.index_of((v, k))] == (v, k));
        }
        if own.contains((v, k)) {
            let i = own.index_of((v, k));
            assert(own[i].0 == n - 1);
            assert(list[before.len() + i] == (v, k));
        }
        if list.contains((v, k)) {
            let i = list.index_of((v, k));
            if i < before.len() {
                assert(before[i] == (v, k));
            } else {
                assert(own[i - before.len()] == (v, k));
            }
        }
        assert forall|i: int| 0 <= i < list.len() implies 0 <= (#[trigger] list[i]).0 < n by {
            if i < before.len() {
                assert(list[i] == before[i]);
            } else {
                assert(list[i] == own[i - before.len()]);
            }
        }
        assert forall|i: int, j: int| 0 <= i < j < list.len() implies (#[trigger] list[i]).0 < (
        #[trigger] list[j]).0 || list[i].0 == list[j].0 && list[i].1 < list[j].1 by {
            if j < before.len() {
                assert(list[i] == before[i] && list[j] == before[j]);
            } else {
                assert(list[j] == own[j - before.len()]);
                if i < before.len() {
                    assert(list[i] == before[i]);
                } else {
                    assert(list[i] == own[i - before.len()]);
                }
            }
        }
    }
}

/// A cluster lists exactly the slots that give weight to its bone, each once,
/// vertex after vertex.
pub proof fn clusters_hold_the_weights(sets: Seq<VertexInfluences>, bone: int, v: int, k: int)
    requires
        0 <= bone <= u16::MAX,
    ensures
        fbx::entries_of(sets, bone).contains((v, k)) <==> gives_weight(sets, bone, v, k),
        forall|i: int, j: int|
            0 <= i < j < fbx::entries_of(sets, bone).len() ==> fbx::entries_of(sets, bone)[i].0
                < fbx::entries_of(sets, bone)[j].0 || fbx::entries_of(sets, bone)[i].0
                == fbx::entries_of(sets, bone)[j].0 && fbx::entries_of(sets, bone)[i].1
                < fbx::entries_of(sets, bone)[j].1,
{
    first_clusters_hold(sets, bone, sets.len(), v, k);
}

/// The vertices that a cluster names are those of its slots.
pub proof fn cluster_vertices_read_back(entries: Seq<(int, int)>, i: int)
    requires
        0 <= i < entries.len(),
        0 <= entries[i].0 < 0x8000_0000,
    ensures
        cluster_vertices(entries).len() == entries.len(),
        reading::signed_value(cluster_vertices(entries)[i]) == entries[i].0,
{
    reading::signed_decimal_reads_back(fbx::wrap_i32(entries[i].0));
}

proof fn zeros_are_dropped(s: Seq<char>)
    ensures
        fbx::without_zeros(s).len() <= s.len(),
        fbx::without_zeros(s) == s.take(fbx::without_zeros(s).len() as int),
        forall|i: int| fbx::without_zeros(s).len() <= i < s.len() ==> s[i] == '0',
        fbx::without_zeros(s).len() > 0 ==> fbx::without_zeros(s).last() != '0',
    decreases s.len(),
{
    if s.len() > 0 && s.last() == '0' {
        zeros_are_dropped(s.drop_last());
        let short = fbx::without_zeros(s);
        assert(s.take(short.len() as int) =~= s.drop_last().take(short.len() as int));
        assert forall|i: int| short.len() <= i < s.len() implies s[i] == '0' by {
            if i < s.len() - 1 {
                assert(s.drop_last()[i] == '0');
            }
        }
    } else {
        assert(s.take(s.len() as int) =~= s);
    }
}

/// A number is printed as it is, but for zeros at its end: what is left starts
/// it, all that was dropped are zeros, it ends in no zero but one right behind
/// the point, and the point stays. Zero itself is a single zero.
pub proof fn printed_numbers_lose_only_zeros(number: Decimal)
    requires
        number.fixed@.contains('.') && number.fixed@.last() != '.',
    ensures
        number.is_zero ==> fbx::plain_decimal(number.is_zero, number.fixed@) == seq!['0'],
        !number.is_zero ==> {
            let r = fbx::plain_decimal(number.is_zero, number.fixed@);
            &&& r.len() <= number.fixed@.len()
            &&& r == number.fixed@.take(r.len() as int)
            &&& forall|i: int| r.len() <= i < number.fixed@.len() ==> number.fixed@[i] == '0'
            &&& r.contains('.')
            &&& r.len() > 1 && r.last() == '0' ==> r[r.len() - 2] == '.'
        },
{
    reveal_strlit("0");
    assert("0"@ =~= seq!['0']);
    let fixed = number.fixed@;
    let short = fbx::without_zeros(fixed);
    zeros_are_dropped(fixed);
    let p = fixed.index_of('.');
    assert(p < short.len());
    assert(short[p] == '.');
    if !number.is_zero {
        let r = fbx::plain_decimal(number.is_zero, fixed);
        if short.last() == '.' {
            assert(short.len() < fixed.len());
            assert(fixed[short.len() as int] == '0');
            assert(r =~= fixed.take(r.len() as int));
            assert(r[p] == '.');
        }
    }
}

} // verus!
