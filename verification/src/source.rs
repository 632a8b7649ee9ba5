use vstd::prelude::*;

use crate::c_standard::CStandard;
use crate::c_utilities::{
    pascal_to_snake_case, snake_case, spaces, text_of, CConfigurations, CStructMember,
};
use crate::compiler_error::CompilerError;
use crate::header::{file_of, text_is_empty};
use crate::output_file::{relative_name, OutputFile, OutputFileView};
use crate::schema::{
    FieldIndex, FieldType, RuneFileDescription, StructDefinition, StructMember,
    UserDefinitionLink, FIELD_INDEX_LIMIT,
};
use crate::structs::{largest_index, size_definition};
use crate::text::{
    byte_length, digits, gap, gap_between, line, line_of, number_text, push_line, spaces_text,
    text_length,
};

verus! {

// The slots of a descriptor

/// What the descriptor of a struct says of one field index.
pub struct Slot {
    /// Name of the member that uses the index
    pub identifier: Seq<char>,
    /// Type of that member
    pub data_type: FieldType,
    /// Name of the struct that the member holds, if it holds one
    pub nested: Option<Seq<char>>,
}

/// The slot of a member.
pub open spec fn slot_of(member: &StructMember) -> Slot {
    Slot {
        identifier: member.identifier@,
        data_type: member.data_type,
        nested: match member.user_definition_link {
            UserDefinitionLink::StructLink(link) => Some(link.name@),
            _ => None,
        },
    }
}

/// The slot of an index that no member uses: it has size 0 and offset 0.
pub open spec fn empty_slot() -> Slot {
    Slot { identifier: "(empty)"@, data_type: FieldType::Empty, nested: None }
}

/// The place of the last member among the first `upto` that uses an index.
pub open spec fn slot_member(members: Seq<StructMember>, index: u64, upto: int) -> Option<int>
    decreases upto,
{
    if upto <= 0 {
        None
    } else if members[upto - 1].index.spec_value() == index {
        Some(upto - 1)
    } else {
        slot_member(members, index, upto - 1)
    }
}

/// The slot of an index: that of the member which uses it, or the empty one.
pub open spec fn slot_at(members: Seq<StructMember>, index: u64) -> Slot {
    match slot_member(members, index, members.len() as int) {
        Some(place) => slot_of(&members[place]),
        None => empty_slot(),
    }
}

/// The slots of a struct: one for every index from 0 to the largest in use.
pub open spec fn slots_of(members: Seq<StructMember>) -> Seq<Slot> {
    Seq::new(
        (largest_index(members, members.len() as int) + 1) as nat,
        |index: int| slot_at(members, index as u64),
    )
}

/// Whether one of the first `upto` members is the field that verifies the message.
pub open spec fn has_verifier(members: Seq<StructMember>, upto: int) -> bool
    decreases upto,
{
    if upto <= 0 {
        false
    } else {
        members[upto - 1].index is Verifier || has_verifier(members, upto - 1)
    }
}

/// The length of the longest name among the first `upto` members.
pub open spec fn longest_member_name(members: Seq<StructMember>, upto: int) -> usize
    decreases upto,
{
    if upto <= 0 {
        0
    } else if byte_length(snake_case(members[upto - 1].identifier@)) > longest_member_name(
        members,
        upto - 1,
    ) {
        byte_length(snake_case(members[upto - 1].identifier@))
    } else {
        longest_member_name(members, upto - 1)
    }
}

/// The presence bits of a descriptor, written with the highest index
/// first: the bit of an index is 1 where the member that uses it holds a struct.
pub open spec fn presence_bits(slots: Seq<Slot>) -> Seq<char> {
    Seq::new(
        slots.len(),
        |k: int|
            if slots[slots.len() - 1 - k].nested is Some {
                '1'
            } else {
                '0'
            },
    )
}

/// The presence bit of an index is set exactly where the member that uses
/// the index holds a struct, which has a descriptor of its own.
pub proof fn lemma_presence_bit(slots: Seq<Slot>, index: int)
    requires
        0 <= index < slots.len(),
    ensures
        presence_bits(slots).len() == slots.len(),
        presence_bits(slots)[slots.len() - 1 - index] == '1' <==> slots[index].nested is Some,
        presence_bits(slots)[slots.len() - 1 - index] == '0' <==> slots[index].nested is None,
{
}

/// The names of the structs that the first `upto` slots hold, by ascending index.
pub open spec fn nested_names(slots: Seq<Slot>, upto: int) -> Seq<Seq<char>>
    decreases upto,
{
    if upto <= 0 {
        Seq::empty()
    } else {
        match slots[upto - 1].nested {
            Some(name) => nested_names(slots, upto - 1).push(snake_case(name)),
            None => nested_names(slots, upto - 1),
        }
    }
}

// The text of a descriptor

/// The lines that name the descriptors of the first `upto` nested structs.
pub open spec fn descriptor_rows(names: Seq<Seq<char>>, upto: int) -> Seq<char>
    decreases upto,
{
    if upto <= 0 {
        Seq::empty()
    } else {
        descriptor_rows(names, upto - 1) + line(
            "    &"@ + names[upto - 1] + "_descriptor"@ + (if upto == names.len() {
                ""@
            } else {
                ","@
            }),
        )
    }
}

/// The table of the descriptors of the nested structs, where there are any.
pub open spec fn field_descriptors(struct_name: Seq<char>, names: Seq<Seq<char>>) -> Seq<char> {
    if names.len() == 0 {
        Seq::empty()
    } else {
        line(
            "const rune_descriptor_t* "@ + struct_name + "_field_descriptors["@ + digits(
                names.len(),
                10,
            ) + "] = {"@,
        ) + descriptor_rows(names, names.len() as int) + line("};"@) + "\n"@
    }
}

/// How the descriptor points at the descriptors of the nested structs.
pub open spec fn field_descriptors_value(struct_name: Seq<char>, names: Seq<Seq<char>>) -> Seq<
    char,
> {
    if names.len() == 0 {
        "NULL"@
    } else {
        "&"@ + struct_name + "_field_descriptors"@
    }
}

/// What stands in front of the name of a field of the descriptor: nothing
/// where the standard has designated initializers, else the opening of a comment.
pub open spec fn comment_start(designated: bool) -> Seq<char> {
    if designated {
        ""@
    } else {
        "/* "@
    }
}

/// What stands behind the equals sign of a field of the descriptor.
pub open spec fn comment_end(designated: bool) -> Seq<char> {
    if designated {
        ""@
    } else {
        " */"@
    }
}

/// What stands in front of the equals sign of a field of the descriptor.
pub open spec fn equals_space(designated: bool) -> Seq<char> {
    if designated {
        "    "@
    } else {
        ""@
    }
}

/// Whether the struct has a verifying field, as C writes it.
pub open spec fn verifier_value(designated: bool, has_verification: bool) -> Seq<char> {
    if designated {
        if has_verification {
            "true"@
        } else {
            "false"@
        }
    } else {
        if has_verification {
            "1"@
        } else {
            "0"@
        }
    }
}

/// A line that sets one field of the descriptor.
pub open spec fn assignment(designated: bool, field: Seq<char>, value: Seq<char>) -> Seq<char> {
    line(
        "    "@ + comment_start(designated) + field + equals_space(designated) + "="@ + comment_end(
            designated,
        ) + " "@ + value,
    )
}

/// The first lines of a descriptor, down to the opening of the table of the fields.
#[verifier::opaque]
pub open spec fn descriptor_head(
    struct_name: Seq<char>,
    slots: Seq<Slot>,
    has_verification: bool,
    designated: bool,
) -> Seq<char> {
    let names = nested_names(slots, slots.len() as int);
    line("const rune_descriptor_t RUNIC_PARSER "@ + struct_name + "_descriptor = {"@) + assignment(
        designated,
        ".descriptor_flags     "@,
        "0b"@ + presence_bits(slots) + ","@,
    ) + assignment(
        designated,
        ".field_descriptors    "@,
        field_descriptors_value(struct_name, names) + ","@,
    ) + assignment(designated, ".size                 "@, "sizeof("@ + struct_name + "_t),"@)
        + assignment(
        designated,
        ".largest_field        "@,
        digits((slots.len() - 1) as nat, 10) + ","@,
    ) + assignment(designated, ".parsing_data         "@, "{"@) + assignment(
        designated,
        "    .has_verification "@,
        verifier_value(designated, has_verification) + ","@,
    ) + line("    },"@) + assignment(designated, ".field_info           "@, "{"@)
}

/// The offset of the field of a slot in its struct, which the C compiler
/// works out from the declaration of the struct. An empty slot has offset 0.
pub open spec fn slot_offset(struct_name: Seq<char>, slot: Slot) -> Seq<char> {
    if slot.data_type is Empty {
        "0"@
    } else {
        "offsetof("@ + struct_name + "_t, "@ + snake_case(slot.identifier) + ")"@
    }
}

/// No member among the first `upto` uses an index that differs from all of
/// their indexes.
pub proof fn lemma_unused_index_has_no_member(members: Seq<StructMember>, index: u64, upto: int)
    requires
        0 <= upto <= members.len(),
        forall|k: int| 0 <= k < upto ==> (#[trigger] members[k]).index.spec_value() != index,
    ensures
        slot_member(members, index, upto) is None,
    decreases upto,
{
    if upto > 0 {
        assert(members[upto - 1].index.spec_value() != index);
        lemma_unused_index_has_no_member(members, index, upto - 1);
    }
}

/// The descriptor of a struct has exactly one slot for every index from 0
/// to the largest in use, and the slot of an index that no member uses is the
/// empty one, whose size is 0 and whose offset is 0.
pub proof fn lemma_slots_are_dense(
    members: Seq<StructMember>,
    struct_name: Seq<char>,
    c_standard: &CStandard,
)
    ensures
        slots_of(members).len() == largest_index(members, members.len() as int) + 1,
        forall|index: int|
            0 <= index < slots_of(members).len() && (forall|k: int|
                0 <= k < members.len() ==> (#[trigger] members[k]).index.spec_value() != index)
                ==> #[trigger] slots_of(members)[index] == empty_slot(),
        size_definition(&empty_slot().data_type, c_standard) == Ok::<Seq<char>, CompilerError>(
            "0"@,
        ),
        slot_offset(struct_name, empty_slot()) == "0"@,
{
    assert forall|index: int|
        0 <= index < slots_of(members).len() && (forall|k: int|
            0 <= k < members.len() ==> (#[trigger] members[k]).index.spec_value()
                != index) implies #[trigger] slots_of(members)[index] == empty_slot() by {
        lemma_unused_index_has_no_member(members, index as u64, members.len() as int);
    }
}

/// The lines of one slot of a descriptor: a comment with the name and the
/// index, the offset of the field in the struct, and its size. An empty slot has
/// offset 0 and size 0.
#[verifier::opaque]
pub open spec fn slot_text(
    struct_name: Seq<char>,
    slot: Slot,
    counter: int,
    count: int,
    longest: usize,
    has_verification: bool,
    c_standard: &CStandard,
) -> Result<Seq<char>, CompilerError> {
    let designated = c_standard.spec_allows_designated_initializers();
    let member_name = snake_case(slot.identifier);
    let empty = slot.data_type is Empty;
    match size_definition(&slot.data_type, c_standard) {
        Err(error) => Err(error),
        Ok(size) => Ok(
            line(
                "    /*  "@ + (if designated {
                    ""@
                } else {
                    "   "@
                }) + (if empty {
                    ""@
                } else {
                    "."@
                }) + member_name + ": "@ + spaces_text(
                    gap(longest, byte_length(member_name)) as nat,
                ) + (if has_verification && counter == 0 {
                    "Verifier field - "@
                } else {
                    ""@
                }) + digits(counter as nat, 10) + " */ {"@,
            ) + line(
                "    "@ + comment_start(designated) + "        .offset ="@ + comment_end(
                    designated,
                ) + " "@ + slot_offset(struct_name, slot) + ","@,
            ) + line(
                "    "@ + comment_start(designated) + "        .size   ="@ + comment_end(
                    designated,
                ) + " "@ + size + ","@,
            ) + line(
                "        }"@ + (if counter == count - 1 {
                    " "@
                } else {
                    ","@
                }),
            ),
        ),
    }
}

/// The lines of the first `upto` slots, or the error of the first slot
/// whose size cannot be written.
pub open spec fn slots_text(
    struct_name: Seq<char>,
    slots: Seq<Slot>,
    longest: usize,
    has_verification: bool,
    c_standard: &CStandard,
    upto: int,
) -> Result<Seq<char>, CompilerError>
    decreases upto,
{
    if upto <= 0 {
        Ok(Seq::empty())
    } else {
        match slots_text(struct_name, slots, longest, has_verification, c_standard, upto - 1) {
            Err(error) => Err(error),
            Ok(before) => match slot_text(
                struct_name,
                slots[upto - 1],
                upto - 1,
                slots.len() as int,
                longest,
                has_verification,
                c_standard,
            ) {
                Err(error) => Err(error),
                Ok(row) => Ok(before + row),
            },
        }
    }
}

/// The descriptor of a struct. Only the indexes 0 to 31 exist: a struct
/// that uses a higher one ends in a logic error.
#[verifier::opaque]
pub open spec fn descriptor_text(struct_definition: &StructDefinition, c_standard: &CStandard) -> Result<
    Seq<char>,
    CompilerError,
> {
    let members = struct_definition.members@;
    let struct_name = snake_case(struct_definition.name@);
    let slots = slots_of(members);
    let has_verification = has_verifier(members, members.len() as int);
    if largest_index(members, members.len() as int) >= FIELD_INDEX_LIMIT {
        Err(CompilerError::LogicError)
    } else {
        match slots_text(
            struct_name,
            slots,
            longest_member_name(members, members.len() as int),
            has_verification,
            c_standard,
            slots.len() as int,
        ) {
            Err(error) => Err(error),
            Ok(rows) => Ok(
                field_descriptors(struct_name, nested_names(slots, slots.len() as int))
                    + descriptor_head(
                    struct_name,
                    slots,
                    has_verification,
                    c_standard.spec_allows_designated_initializers(),
                ) + rows + line("    }"@) + line("};"@),
            ),
        }
    }
}

/// Once a slot has failed, more slots do not change the outcome.
pub proof fn lemma_slots_failure_stays(
    struct_name: Seq<char>,
    slots: Seq<Slot>,
    longest: usize,
    has_verification: bool,
    c_standard: &CStandard,
    earlier: int,
    later: int,
)
    requires
        earlier <= later,
        slots_text(struct_name, slots, longest, has_verification, c_standard, earlier) is Err,
    ensures
        slots_text(struct_name, slots, longest, has_verification, c_standard, later) == slots_text(
            struct_name,
            slots,
            longest,
            has_verification,
            c_standard,
            earlier,
        ),
    decreases later - earlier,
{
    if earlier < later {
        lemma_slots_failure_stays(
            struct_name,
            slots,
            longest,
            has_verification,
            c_standard,
            earlier,
            later - 1,
        );
    }
}

// Building the slots

/// The slot that an entry of the list of slots stands for.
pub open spec fn slot_view(entry: Option<&StructMember>) -> Slot {
    match entry {
        Some(member) => slot_of(member),
        None => empty_slot(),
    }
}

/// The slots that a list stands for.
pub open spec fn slots_view(list: Seq<Option<&StructMember>>) -> Seq<Slot> {
    Seq::new(list.len(), |k: int| slot_view(list[k]))
}

/// The slots of a struct: for every index from 0 to the largest in use the
/// last member that uses it, or nothing.
pub fn descriptor_slots<'a>(struct_definition: &'a StructDefinition) -> (result: Result<
    Vec<Option<&'a StructMember>>,
    CompilerError,
>)
    ensures
        match result {
            Ok(list) => {
                &&& largest_index(
                    struct_definition.members@,
                    struct_definition.members@.len() as int,
                ) < FIELD_INDEX_LIMIT
                &&& list@.len() == largest_index(
                    struct_definition.members@,
                    struct_definition.members@.len() as int,
                ) + 1
                &&& slots_view(list@) == slots_of(struct_definition.members@)
                &&& forall|index: int|
                    0 <= index < list@.len() ==> (#[trigger] list@[index] is None <==> slot_member(
                        struct_definition.members@,
                        index as u64,
                        struct_definition.members@.len() as int,
                    ) is None)
            },
            Err(error) => error == CompilerError::LogicError && largest_index(
                struct_definition.members@,
                struct_definition.members@.len() as int,
            ) >= FIELD_INDEX_LIMIT,
        },
{
    let members = &struct_definition.members;

    // Get highest index number
    let highest_index: u64 = struct_definition.highest_index();
    if highest_index >= FIELD_INDEX_LIMIT {
        return Err(CompilerError::LogicError);
    }
    let member_count: u64 = highest_index + 1;

    // Index sort all members, leaving the skipped fields empty
    let mut index_sorted_members: Vec<Option<&'a StructMember>> = Vec::new();
    let mut i: u64 = 0;
    while i < member_count
        invariant
            i <= member_count,
            member_count <= FIELD_INDEX_LIMIT,
            members == &struct_definition.members,
            index_sorted_members@.len() == i,
            forall|index: int|
                0 <= index < i ==> slot_view(#[trigger] index_sorted_members@[index]) == slot_at(
                    members@,
                    index as u64,
                ),
            forall|index: int|
                0 <= index < i ==> (#[trigger] index_sorted_members@[index] is None
                    <==> slot_member(members@, index as u64, members@.len() as int) is None),
        decreases member_count - i,
    {
        // Try to find member with index i
        let mut member: Option<&'a StructMember> = None;
        let mut j: usize = 0;
        while j < members.len()
            invariant
                j <= members.len(),
                match slot_member(members@, i, j as int) {
                    Some(place) => member == Some(&members@[place]),
                    None => member is None,
                },
            decreases members.len() - j,
        {
            if members[j].index.value() == i {
                member = Some(&members[j]);
            }
            j = j + 1;
        }
        index_sorted_members.push(member);
        i = i + 1;
    }
    proof {
        assert(slots_view(index_sorted_members@) =~= slots_of(members@));
    }
    Ok(index_sorted_members)
}

/// Whether a struct has a field that verifies the message.
pub fn has_verification_field(struct_definition: &StructDefinition) -> (found: bool)
    ensures
        found == has_verifier(
            struct_definition.members@,
            struct_definition.members@.len() as int,
        ),
{
    let mut has_verification: bool = false;
    let mut i: usize = 0;
    while i < struct_definition.members.len()
        invariant
            i <= struct_definition.members.len(),
            has_verification == has_verifier(struct_definition.members@, i as int),
        decreases struct_definition.members.len() - i,
    {
        if struct_definition.members[i].index.is_verifier() {
            has_verification = true;
        }
        i = i + 1;
    }
    has_verification
}

/// The length of the longest name of a member of a struct.
pub fn longest_name(struct_definition: &StructDefinition) -> (longest: usize)
    ensures
        longest == longest_member_name(
            struct_definition.members@,
            struct_definition.members@.len() as int,
        ),
{
    let mut longest_member_name_size: usize = 0;
    let mut i: usize = 0;
    while i < struct_definition.members.len()
        invariant
            i <= struct_definition.members.len(),
            longest_member_name_size == longest_member_name(
                struct_definition.members@,
                i as int,
            ),
        decreases struct_definition.members.len() - i,
    {
        let length = text_length(
            pascal_to_snake_case(struct_definition.members[i].identifier.as_str()).as_str(),
        );
        if length > longest_member_name_size {
            longest_member_name_size = length;
        }
        i = i + 1;
    }
    longest_member_name_size
}

/// The presence bits of a descriptor, the highest index first.
pub fn presence_text(slots: &Vec<Option<&StructMember>>) -> (text: String)
    ensures
        text@ == presence_bits(slots_view(slots@)),
{
    let mut text = String::new();
    let mut k: usize = 0;
    while k < slots.len()
        invariant
            k <= slots.len(),
            text@ == presence_bits(slots_view(slots@)).take(k as int),
        decreases slots.len() - k,
    {
        let nested = match slots[slots.len() - 1 - k] {
            Some(member) => match &member.user_definition_link {
                UserDefinitionLink::StructLink(_) => true,
                _ => false,
            },
            None => false,
        };
        if nested {
            text.push('1');
        } else {
            text.push('0');
        }
        proof {
            let bits = presence_bits(slots_view(slots@));
            assert(bits.take(k + 1) =~= bits.take(k as int).push(bits[k as int]));
        }
        k = k + 1;
    }
    proof {
        let bits = presence_bits(slots_view(slots@));
        assert(bits.take(slots.len() as int) =~= bits);
    }
    text
}

/// Whether a list of texts holds some names, one for one.
pub open spec fn holds_names(list: Seq<String>, names: Seq<Seq<char>>) -> bool {
    list.len() == names.len() && forall|k: int| 0 <= k < list.len() ==> (#[trigger] list[k])@
        == names[k]
}

/// The names of the structs that the slots hold, by ascending index.
pub fn descriptor_names(slots: &Vec<Option<&StructMember>>) -> (names: Vec<String>)
    ensures
        holds_names(names@, nested_names(slots_view(slots@), slots@.len() as int)),
{
    let mut descriptor_list: Vec<String> = Vec::new();
    let mut i: usize = 0;
    while i < slots.len()
        invariant
            i <= slots.len(),
            holds_names(descriptor_list@, nested_names(slots_view(slots@), i as int)),
        decreases slots.len() - i,
    {
        // Check to see if it's a nested message, and add descriptor if so
        match slots[i] {
            Some(member) => match &member.user_definition_link {
                UserDefinitionLink::StructLink(link) => {
                    descriptor_list.push(pascal_to_snake_case(link.name.as_str()));
                },
                _ => {},
            },
            None => {},
        }
        i = i + 1;
    }
    descriptor_list
}

/// The table of the descriptors of the nested structs.
pub fn field_descriptors_text(struct_name: &str, descriptor_list: &Vec<String>) -> (text: String)
    ensures
        forall|names: Seq<Seq<char>>|
            holds_names(descriptor_list@, names) ==> text@ == #[trigger] field_descriptors(
                struct_name@,
                names,
            ),
{
    let ghost names = Seq::new(descriptor_list@.len(), |k: int| descriptor_list@[k]@);
    let mut text = String::new();
    // Output field descriptors (if any)
    if descriptor_list.len() != 0 {
        let mut opening = String::from_str("const rune_descriptor_t* ");
        opening.append(struct_name);
        opening.append("_field_descriptors[");
        opening.append(number_text(descriptor_list.len() as u64, 10).as_str());
        opening.append("] = {");
        text = line_of(opening.as_str());

        let mut rows = String::new();
        let mut i: usize = 0;
        while i < descriptor_list.len()
            invariant
                i <= descriptor_list.len(),
                names == Seq::new(descriptor_list@.len(), |k: int| descriptor_list@[k]@),
                rows@ == descriptor_rows(names, i as int),
            decreases descriptor_list.len() - i,
        {
            let mut row = String::from_str("    &");
            row.append(descriptor_list[i].as_str());
            row.append("_descriptor");
            if i == descriptor_list.len() - 1 {
                row.append("");
            } else {
                row.append(",");
            }
            push_line(&mut rows, row.as_str());
            i = i + 1;
        }
        text.append(rows.as_str());
        push_line(&mut text, "};");
        text.append("\n");
    }
    proof {
        assert(text@ == field_descriptors(struct_name@, names));
        assert forall|other: Seq<Seq<char>>| holds_names(descriptor_list@, other) implies text@
            == #[trigger] field_descriptors(struct_name@, other) by {
            assert(other =~= names);
        }
    }
    text
}

/// A line that sets one field of the descriptor.
pub fn assignment_text(designated: bool, field: &str, value: &str) -> (text: String)
    ensures
        text@ == assignment(designated, field@, value@),
{
    let mut row = String::from_str("    ");
    if designated {
        row.append("");
    } else {
        row.append("/* ");
    }
    row.append(field);
    if designated {
        row.append("    ");
    } else {
        row.append("");
    }
    row.append("=");
    if designated {
        row.append("");
    } else {
        row.append(" */");
    }
    row.append(" ");
    row.append(value);
    line_of(row.as_str())
}

/// The first lines of a descriptor. A descriptor has at least one slot, that
/// of index 0.
pub fn descriptor_head_text(
    struct_name: &str,
    slots: &Vec<Option<&StructMember>>,
    has_verification: bool,
    designated: bool,
) -> (text: String)
    requires
        slots@.len() >= 1,
    ensures
        text@ == descriptor_head(struct_name@, slots_view(slots@), has_verification, designated),
{
    proof {
        reveal(descriptor_head);
    }
    let descriptor_list = descriptor_names(slots);
    let ghost names = nested_names(slots_view(slots@), slots@.len() as int);

    // Handle field descriptors
    let descriptor_list_initializer: String = if descriptor_list.len() == 0 {
        String::from_str("NULL")
    } else {
        let mut initializer = String::from_str("&");
        initializer.append(struct_name);
        initializer.append("_field_descriptors");
        initializer
    };

    let has_verification_string: &str = if designated {
        if has_verification {
            "true"
        } else {
            "false"
        }
    } else {
        if has_verification {
            "1"
        } else {
            "0"
        }
    };

    let mut opening = String::from_str("const rune_descriptor_t RUNIC_PARSER ");
    opening.append(struct_name);
    opening.append("_descriptor = {");
    let mut text = line_of(opening.as_str());

    let mut flags = String::from_str("0b");
    flags.append(presence_text(slots).as_str());
    flags.append(",");
    text.append(assignment_text(designated, ".descriptor_flags     ", flags.as_str()).as_str());

    let mut descriptors = descriptor_list_initializer;
    descriptors.append(",");
    text.append(
        assignment_text(designated, ".field_descriptors    ", descriptors.as_str()).as_str(),
    );

    let mut size = String::from_str("sizeof(");
    size.append(struct_name);
    size.append("_t),");
    text.append(assignment_text(designated, ".size                 ", size.as_str()).as_str());

    let mut largest = number_text((slots.len() - 1) as u64, 10);
    largest.append(",");
    text.append(assignment_text(designated, ".largest_field        ", largest.as_str()).as_str());

    text.append(assignment_text(designated, ".parsing_data         ", "{").as_str());

    let mut verification = String::from_str(has_verification_string);
    verification.append(",");
    text.append(
        assignment_text(designated, "    .has_verification ", verification.as_str()).as_str(),
    );
    push_line(&mut text, "    },");
    text.append(assignment_text(designated, ".field_info           ", "{").as_str());
    text
}

/// The lines of one slot of a descriptor.
pub fn slot_row(
    struct_name: &str,
    entry: Option<&StructMember>,
    counter: usize,
    count: usize,
    longest: usize,
    has_verification: bool,
    c_standard: &CStandard,
) -> (result: Result<String, CompilerError>)
    ensures
        text_of(result) == slot_text(
            struct_name@,
            slot_view(entry),
            counter as int,
            count as int,
            longest,
            has_verification,
            c_standard,
        ),
{
    proof {
        reveal(slot_text);
    }
    let designated = c_standard.allows_designated_initializers();
    let comment_start: &str = if designated {
        ""
    } else {
        "/* "
    };
    let comment_end: &str = if designated {
        ""
    } else {
        " */"
    };

    let member_name: String = match entry {
        Some(member) => pascal_to_snake_case(member.identifier.as_str()),
        None => pascal_to_snake_case("(empty)"),
    };
    let empty: bool = match entry {
        Some(member) => match &member.data_type {
            FieldType::Empty => true,
            _ => false,
        },
        None => true,
    };
    let spacing: usize = gap_between(longest, text_length(member_name.as_str()));

    let size_string: String = match entry {
        Some(member) => {
            proof {
                assert(member.spec_c_size_definition(c_standard) == size_definition(
                    &member.data_type,
                    c_standard,
                ));
            }
            member.c_size_definition(c_standard)?
        },
        None => String::from_str("0"),
    };

    let mut heading = String::from_str("    /*  ");
    if designated {
        heading.append("");
    } else {
        heading.append("   ");
    }
    if empty {
        heading.append("");
    } else {
        heading.append(".");
    }
    heading.append(member_name.as_str());
    heading.append(": ");
    heading.append(spaces(spacing).as_str());
    if has_verification && counter == 0 {
        heading.append("Verifier field - ");
    } else {
        heading.append("");
    }
    heading.append(number_text(counter as u64, 10).as_str());
    heading.append(" */ {");
    let mut text = line_of(heading.as_str());

    let mut offset = String::from_str("    ");
    offset.append(comment_start);
    offset.append("        .offset =");
    offset.append(comment_end);
    offset.append(" ");
    if empty {
        offset.append("0");
    } else {
        let mut offset_string = String::from_str("offsetof(");
        offset_string.append(struct_name);
        offset_string.append("_t, ");
        offset_string.append(member_name.as_str());
        offset_string.append(")");
        offset.append(offset_string.as_str());
    }
    offset.append(",");
    push_line(&mut text, offset.as_str());

    let mut size = String::from_str("    ");
    size.append(comment_start);
    size.append("        .size   =");
    size.append(comment_end);
    size.append(" ");
    size.append(size_string.as_str());
    size.append(",");
    push_line(&mut text, size.as_str());

    let mut closing = String::from_str("        }");
    if count != 0 && counter == count - 1 {
        closing.append(" ");
    } else {
        closing.append(",");
    }
    push_line(&mut text, closing.as_str());
    Ok(text)
}

/// The descriptor of a struct.
pub fn struct_descriptor(struct_definition: &StructDefinition, c_standard: &CStandard) -> (result:
    Result<String, CompilerError>)
    ensures
        text_of(result) == descriptor_text(struct_definition, c_standard),
{
    proof {
        reveal(descriptor_text);
    }
    let struct_name: String = pascal_to_snake_case(struct_definition.name.as_str());
    let ghost members = struct_definition.members@;

    // Missing indexes get an empty definition: size 0 will cause the field to be skipped
    let index_sorted_members = descriptor_slots(struct_definition)?;
    let ghost slots = slots_of(members);
    let has_verification = has_verification_field(struct_definition);
    let longest_member_name_size = longest_name(struct_definition);

    let descriptor_list = descriptor_names(&index_sorted_members);
    let mut text = field_descriptors_text(struct_name.as_str(), &descriptor_list);
    proof {
        assert(text@ == field_descriptors(struct_name@, nested_names(slots, slots.len() as int)));
    }
    text.append(
        descriptor_head_text(
            struct_name.as_str(),
            &index_sorted_members,
            has_verification,
            c_standard.allows_designated_initializers(),
        ).as_str(),
    );

    let rows = slot_rows(
        struct_name.as_str(),
        &index_sorted_members,
        longest_member_name_size,
        has_verification,
        c_standard,
    )?;
    text.append(rows.as_str());
    push_line(&mut text, "    }");
    push_line(&mut text, "};");
    Ok(text)
}

/// The lines of the slots of a descriptor.
pub fn slot_rows(
    struct_name: &str,
    index_sorted_members: &Vec<Option<&StructMember>>,
    longest: usize,
    has_verification: bool,
    c_standard: &CStandard,
) -> (result: Result<String, CompilerError>)
    ensures
        text_of(result) == slots_text(
            struct_name@,
            slots_view(index_sorted_members@),
            longest,
            has_verification,
            c_standard,
            index_sorted_members@.len() as int,
        ),
{
    let ghost slots = slots_view(index_sorted_members@);
    let member_count = index_sorted_members.len();
    let mut rows = String::new();
    let mut counter: usize = 0;
    while counter < member_count
        invariant
            counter <= member_count,
            member_count == index_sorted_members@.len(),
            slots == slots_view(index_sorted_members@),
            slots_text(
                struct_name@,
                slots,
                longest,
                has_verification,
                c_standard,
                counter as int,
            ) == Ok::<Seq<char>, CompilerError>(rows@),
        decreases member_count - counter,
    {
        proof {
            assert(slots[counter as int] == slot_view(index_sorted_members@[counter as int]));
        }
        match slot_row(
            struct_name,
            index_sorted_members[counter],
            counter,
            member_count,
            longest,
            has_verification,
            c_standard,
        ) {
            Err(error) => {
                proof {
                    assert(slots_text(
                        struct_name@,
                        slots,
                        longest,
                        has_verification,
                        c_standard,
                        counter + 1,
                    ) == Err::<Seq<char>, CompilerError>(error));
                    lemma_slots_failure_stays(
                        struct_name@,
                        slots,
                        longest,
                        has_verification,
                        c_standard,
                        counter + 1,
                        slots.len() as int,
                    );
                }
                return Err(error);
            },
            Ok(row) => {
                rows.append(row.as_str());
            },
        }
        counter = counter + 1;
    }
    Ok(rows)
}

// The source of a schema file

/// The name of the source of a schema file: its folder, its name, and `.rune.c`.
pub open spec fn source_file_name(file: &RuneFileDescription) -> Seq<char> {
    (if file.relative_path@.len() == 0 {
        Seq::empty()
    } else {
        "/"@ + file.relative_path@
    }) + file.name@ + ".rune.c"@
}

/// The descriptors of the first `upto` structs, or the error of the first
/// struct that fails.
pub open spec fn descriptors_text(
    structs: Seq<StructDefinition>,
    c_standard: &CStandard,
    upto: int,
) -> Result<Seq<char>, CompilerError>
    decreases upto,
{
    if upto <= 0 {
        Ok(Seq::empty())
    } else {
        match descriptors_text(structs, c_standard, upto - 1) {
            Err(error) => Err(error),
            Ok(before) => match descriptor_text(&structs[upto - 1], c_standard) {
                Err(error) => Err(error),
                Ok(text) => Ok(before + text),
            },
        }
    }
}

/// The first lines of a source: it brings in its own header and the runtime.
pub open spec fn source_opening(file: &RuneFileDescription) -> Seq<char> {
    line("#include \""@ + file.name@ + ".rune.h\""@) + "\n"@ + line("#include \"rune.h\""@) + (
    if file.definitions.structs@.len() == 0 {
        Seq::empty()
    } else {
        "\n"@
    })
}

/// The source file of a schema file, or the error that generating it ends in.
#[verifier::opaque]
pub open spec fn source_file(
    file: &RuneFileDescription,
    configurations: &CConfigurations,
    output_path: Seq<char>,
) -> Result<OutputFileView, CompilerError> {
    match descriptors_text(
        file.definitions.structs@,
        &configurations.compiler_configurations.c_standard,
        file.definitions.structs@.len() as int,
    ) {
        Err(error) => Err(error),
        Ok(descriptors) => Ok(
            OutputFileView {
                path: output_path,
                name: relative_name(source_file_name(file)),
                text: source_opening(file) + descriptors,
            },
        ),
    }
}

/// Once a struct has failed, more structs do not change the outcome.
pub proof fn lemma_descriptors_failure_stays(
    structs: Seq<StructDefinition>,
    c_standard: &CStandard,
    earlier: int,
    later: int,
)
    requires
        earlier <= later,
        descriptors_text(structs, c_standard, earlier) is Err,
    ensures
        descriptors_text(structs, c_standard, later) == descriptors_text(
            structs,
            c_standard,
            earlier,
        ),
    decreases later - earlier,
{
    if earlier < later {
        lemma_descriptors_failure_stays(structs, c_standard, earlier, later - 1);
    }
}

/// The source of a schema file: the descriptors of its structs.
pub fn output_source(
    file: &RuneFileDescription,
    configurations: &CConfigurations,
    output_path: &str,
) -> (result: Result<OutputFile, CompilerError>)
    ensures
        file_of(result) == source_file(file, configurations, output_path@),
{
    proof {
        reveal(source_file);
    }
    let c_standard = &configurations.compiler_configurations.c_standard;

    let mut c_file_string = if text_is_empty(file.relative_path.as_str()) {
        String::new()
    } else {
        let mut folder = String::from_str("/");
        folder.append(file.relative_path.as_str());
        folder
    };
    c_file_string.append(file.name.as_str());
    c_file_string.append(".rune.c");

    let mut text = source_opening_text(file);

    // Struct parsers
    let descriptors = descriptors_block(&file.definitions.structs, c_standard)?;
    text.append(descriptors.as_str());

    let mut source_file: OutputFile = OutputFile::new(
        String::from_str(output_path),
        c_file_string,
    );
    source_file.add_text(text.as_str());
    proof {
        assert(source_file@.text =~= text@);
    }
    Ok(source_file)
}

/// The first lines of a source.
pub fn source_opening_text(file: &RuneFileDescription) -> (text: String)
    ensures
        text@ == source_opening(file),
{
    // Include own header
    let mut own = String::from_str("#include \"");
    own.append(file.name.as_str());
    own.append(".rune.h\"");
    let mut text = line_of(own.as_str());
    text.append("\n");

    // Include rune.h
    push_line(&mut text, "#include \"rune.h\"");

    if file.definitions.structs.len() != 0 {
        text.append("\n");
    } else {
        proof {
            assert(text@ + Seq::<char>::empty() =~= text@);
        }
    }
    text
}

/// The descriptors of the structs of a schema file.
pub fn descriptors_block(structs: &Vec<StructDefinition>, c_standard: &CStandard) -> (result:
    Result<String, CompilerError>)
    ensures
        text_of(result) == descriptors_text(structs@, c_standard, structs@.len() as int),
{
    let mut descriptors = String::new();
    let mut i: usize = 0;
    while i < structs.len()
        invariant
            i <= structs.len(),
            descriptors_text(structs@, c_standard, i as int) == Ok::<Seq<char>, CompilerError>(
                descriptors@,
            ),
        decreases structs.len() - i,
    {
        match struct_descriptor(&structs[i], c_standard) {
            Ok(descriptor) => {
                descriptors.append(descriptor.as_str());
            },
            Err(error) => {
                proof {
                    assert(descriptors_text(structs@, c_standard, i + 1) == Err::<
                        Seq<char>,
                        CompilerError,
                    >(error));
                    lemma_descriptors_failure_stays(
                        structs@,
                        c_standard,
                        i + 1,
                        structs@.len() as int,
                    );
                }
                return Err(error);
            },
        }
        i = i + 1;
    }
    Ok(descriptors)
}

} // verus!
