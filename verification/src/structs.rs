use vstd::prelude::*;

use crate::c_standard::CStandard;
use crate::c_utilities::{
    pascal_to_snake_case, text_of, user_type, CArrayType, CPrimitive, CompileConfigurations,
};
use crate::compiler_error::CompilerError;
use crate::layout::{
    declaration_order, keep_order, layout_order, layout_size, lemma_layout_order_members,
    lemma_padding_never_shrinks, measure, never_padded, sort_sizes, SizedStructMember,
};
use crate::schema::{
    ArraySize, ArrayType, DefineValue, FieldIndex, FieldType, NumericLiteral, StructDefinition,
    StructMember, UserDefinitionLink, FIELD_INDEX_LIMIT,
};

verus! {

// Sizes of members

/// A size, where it fits in 64 bits.
pub open spec fn bounded(value: int) -> Option<u64> {
    if 0 <= value <= u64::MAX {
        Some(value as u64)
    } else {
        None
    }
}

/// The number of elements of an array: the number itself, or the value of
/// the constant that names it, which has to be a positive integer literal.
pub open spec fn array_count(size: &ArraySize) -> Option<u64> {
    match size {
        ArraySize::Integer(value, _) => Some(*value),
        ArraySize::UserDefinition(definition) => match definition.value {
            DefineValue::NumericLiteral(NumericLiteral::PositiveInteger(value, _)) => Some(value),
            _ => None,
        },
    }
}

/// The size of a member in bytes, without any padding. There is none where
/// a user defined type is not linked, where the number of elements of an array
/// is not a positive integer literal, or where a size does not fit in 64 bits.
pub open spec fn member_size(member: &StructMember) -> Option<u64>
    decreases member, 0nat,
{
    match member.data_type {
        // Calculate Array size based on (field type * field size)
        FieldType::Array(array_type, field_size) => match array_count(&field_size) {
            None => None,
            Some(count) => match array_type {
                ArrayType::Primitive(primitive) => bounded(primitive.spec_c_size() * count),
                ArrayType::UserDefined(_) => match link_size(&member.user_definition_link) {
                    None => None,
                    Some(element) => bounded(element * count),
                },
            },
        },
        FieldType::Empty => Some(0),
        FieldType::Primitive(primitive) => Some(primitive.spec_c_size()),
        FieldType::UserDefined(_) => link_size(&member.user_definition_link),
    }
}

/// The size of a value of a user defined type: the size of the backing type
/// of a bitfield or an enum, the sum of the sizes of the members of a struct.
pub open spec fn link_size(link: &UserDefinitionLink) -> Option<u64>
    decreases link, 0nat,
{
    match link {
        UserDefinitionLink::NoLink => None,
        UserDefinitionLink::BitfieldLink(bitfield_definition) => Some(
            bitfield_definition.backing_type.spec_c_size(),
        ),
        UserDefinitionLink::EnumLink(enum_definition) => Some(
            enum_definition.backing_type.spec_c_size(),
        ),
        UserDefinitionLink::StructLink(struct_definition) => members_size(
            struct_definition.members@,
            struct_definition.members@.len() as int,
        ),
    }
}

/// The sum of the sizes of the first `upto` members.
pub open spec fn members_size(members: Seq<StructMember>, upto: int) -> Option<u64>
    decreases members, upto,
{
    if upto <= 0 || upto > members.len() {
        Some(0)
    } else {
        match (members_size(members, upto - 1), member_size(&members[upto - 1])) {
            (Some(sum), Some(size)) => bounded(sum + size),
            _ => None,
        }
    }
}

/// A size, or the error that stands for a size that cannot be had.
pub open spec fn size_result(size: Option<u64>) -> Result<u64, CompilerError> {
    match size {
        Some(value) => Ok(value),
        None => Err(CompilerError::MalformedSource),
    }
}

/// Whether every member has a size.
pub open spec fn all_sized(members: Seq<StructMember>) -> bool {
    forall|k: int| 0 <= k < members.len() ==> (#[trigger] member_size(&members[k])) is Some
}

/// The sizes of the members, in the order of declaration.
pub open spec fn sizes_of(members: Seq<StructMember>) -> Seq<u64> {
    Seq::new(members.len(), |k: int| member_size(&members[k]).unwrap())
}

/// The text that stands for the size of a type in C.
pub open spec fn size_expression(c_type: Seq<char>) -> Seq<char> {
    "sizeof("@ + c_type + ")"@
}

/// The C expression that stands for the size of a field of a type. The
/// size of an empty field is zero.
pub open spec fn size_definition(data_type: &FieldType, c_standard: &CStandard) -> Result<
    Seq<char>,
    CompilerError,
> {
    match data_type {
        FieldType::Primitive(primitive) => match primitive.spec_to_c_type(c_standard) {
            Ok(c_type) => Ok(size_expression(c_type)),
            Err(error) => Err(error),
        },
        FieldType::UserDefined(name) => Ok(size_expression(user_type(name@))),
        FieldType::Array(array_type, array_size) => match array_type.spec_to_c_type(c_standard) {
            Ok(c_type) => Ok("("@ + size_expression(c_type) + " * "@ + array_size.text() + ")"@),
            Err(error) => Err(error),
        },
        FieldType::Empty => Ok("0"@),
    }
}

// Struct member methods

/// What the generator asks of a struct member.
pub trait CStructMember {
    /// The size of the member in bytes.
    spec fn spec_c_size(&self) -> Result<u64, CompilerError>;

    /// The C expression that stands for the size of the member.
    spec fn spec_c_size_definition(&self, c_standard: &CStandard) -> Result<
        Seq<char>,
        CompilerError,
    >;

    /// The size of the member in bytes, without any padding. The schema is
    /// malformed where a user defined type is not linked, where the number of
    /// elements of an array is not a positive integer literal, and where the
    /// size does not fit in 64 bits.
    fn c_size(&self) -> (result: Result<u64, CompilerError>)
        ensures
            result == self.spec_c_size(),
    ;

    /// The C expression that stands for the size of the member.
    fn c_size_definition(&self, c_standard: &CStandard) -> (result: Result<String, CompilerError>)
        ensures
            text_of(result) == self.spec_c_size_definition(c_standard),
    ;

    /// The member that fills a slot which the struct leaves unused. Only the
    /// slots 0 to 31 exist: a higher index is a logic error.
    fn index_empty(index: u64) -> (result: Result<StructMember, CompilerError>)
        ensures
            match result {
                Ok(member) => {
                    &&& index < FIELD_INDEX_LIMIT
                    &&& member.identifier@ == "(empty)"@
                    &&& member.data_type is Empty
                    &&& member.index == FieldIndex::Numeric(index)
                    &&& member.user_definition_link is NoLink
                    &&& member.comment is None
                },
                Err(error) => index >= FIELD_INDEX_LIMIT && error == CompilerError::LogicError,
            },
    ;
}

impl CStructMember for StructMember {
    open spec fn spec_c_size(&self) -> Result<u64, CompilerError> {
        size_result(member_size(self))
    }

    open spec fn spec_c_size_definition(&self, c_standard: &CStandard) -> Result<
        Seq<char>,
        CompilerError,
    > {
        size_definition(&self.data_type, c_standard)
    }

    fn index_empty(index: u64) -> (result: Result<StructMember, CompilerError>) {
        // Check if value is within the legal values (0 to and including 31)
        if index >= FIELD_INDEX_LIMIT {
            return Err(CompilerError::LogicError);
        }
        Ok(
            StructMember {
                identifier: String::from_str("(empty)"),
                data_type: FieldType::Empty,
                index: FieldIndex::Numeric(index),
                user_definition_link: UserDefinitionLink::NoLink,
                comment: None,
            },
        )
    }

    fn c_size_definition(&self, c_standard: &CStandard) -> (result: Result<String, CompilerError>) {
        match &self.data_type {
            FieldType::Primitive(primitive) => {
                let c_type = primitive.to_c_type(c_standard)?;
                Ok(size_expression_text(c_type.as_str()))
            },
            FieldType::UserDefined(name) => {
                let mut c_type = pascal_to_snake_case(name.as_str());
                c_type.append("_t");
                Ok(size_expression_text(c_type.as_str()))
            },
            FieldType::Array(array_type, array_size) => {
                let c_type = array_type.to_c_type(c_standard)?;
                let mut text = String::from_str("(");
                text.append(size_expression_text(c_type.as_str()).as_str());
                text.append(" * ");
                text.append(array_size.to_string().as_str());
                text.append(")");
                Ok(text)
            },
            FieldType::Empty => Ok(String::from_str("0")),
        }
    }

    fn c_size(&self) -> (result: Result<u64, CompilerError>)
        decreases self, 0nat,
    {
        proof {
            assert(self.spec_c_size() == size_result(member_size(self)));
        }
        match &self.data_type {
            // Calculate Array size based on (field type * field size)
            FieldType::Array(array_type, field_size) => {
                // Get the array size first
                let array_size: u64 = match field_size {
                    ArraySize::Integer(value, _) => *value,
                    ArraySize::UserDefinition(definition) => match &definition.value {
                        DefineValue::NumericLiteral(NumericLiteral::PositiveInteger(value, _)) => {
                            *value
                        },
                        _ => {
                            proof {
                                assert(array_count(field_size) is None);
                                assert(member_size(self) is None);
                            }
                            return Err(CompilerError::MalformedSource);
                        },
                    },
                };
                // Parse the byte size based on the array type
                let element_size: u64 = match array_type {
                    ArrayType::Primitive(primitive) => primitive.c_size(),
                    ArrayType::UserDefined(_) => linked_size(&self.user_definition_link)?,
                };
                match element_size.checked_mul(array_size) {
                    Some(total_size) => Ok(total_size),
                    None => Err(CompilerError::MalformedSource),
                }
            },
            FieldType::Empty => Ok(0),
            FieldType::Primitive(primitive) => Ok(primitive.c_size()),
            FieldType::UserDefined(_) => linked_size(&self.user_definition_link),
        }
    }
}

/// The text that stands for the size of a type in C.
pub fn size_expression_text(c_type: &str) -> (text: String)
    ensures
        text@ == size_expression(c_type@),
{
    let mut text = String::from_str("sizeof(");
    text.append(c_type);
    text.append(")");
    text
}

/// The size of a value of a user defined type, by what its name is linked to.
pub fn linked_size(link: &UserDefinitionLink) -> (result: Result<u64, CompilerError>)
    ensures
        result == size_result(link_size(link)),
    decreases link, 1nat,
{
    match link {
        UserDefinitionLink::NoLink => Err(CompilerError::MalformedSource),
        UserDefinitionLink::BitfieldLink(bitfield_definition) => Ok(
            bitfield_definition.backing_type.c_size(),
        ),
        UserDefinitionLink::EnumLink(enum_definition) => Ok(
            enum_definition.backing_type.c_size(),
        ),
        UserDefinitionLink::StructLink(struct_definition) => {
            let mut total_size: u64 = 0;
            let mut i: usize = 0;
            // Resolve the size of each struct member in turn
            while i < struct_definition.members.len()
                invariant
                    i <= struct_definition.members.len(),
                    link == UserDefinitionLink::StructLink(*struct_definition),
                    members_size(struct_definition.members@, i as int) == Some(total_size),
                decreases struct_definition.members.len() - i,
            {
                let member = &struct_definition.members[i];
                proof {
                    assert(member.spec_c_size() == size_result(member_size(member)));
                }
                let sum = match member.c_size() {
                    Ok(size) => total_size.checked_add(size),
                    Err(_) => None,
                };
                match sum {
                    Some(sum) => {
                        total_size = sum;
                    },
                    None => {
                        proof {
                            lemma_members_size_stays_none(
                                struct_definition.members@,
                                i + 1,
                                struct_definition.members@.len() as int,
                            );
                        }
                        return Err(CompilerError::MalformedSource);
                    },
                }
                i = i + 1;
            }
            Ok(total_size)
        },
    }
}

/// Once a sum of sizes cannot be had, it cannot be had with more members either.
pub proof fn lemma_members_size_stays_none(members: Seq<StructMember>, earlier: int, later: int)
    requires
        0 <= earlier <= later <= members.len(),
        members_size(members, earlier) is None,
    ensures
        members_size(members, later) is None,
    decreases later - earlier,
{
    if earlier < later {
        lemma_members_size_stays_none(members, earlier, later - 1);
    }
}

// Struct definition methods

/// The largest slot that one of the first `upto` members uses.
pub open spec fn largest_index(members: Seq<StructMember>, upto: int) -> u64
    decreases upto,
{
    if upto <= 0 {
        0
    } else if members[upto - 1].index.spec_value() > largest_index(members, upto - 1) {
        members[upto - 1].index.spec_value()
    } else {
        largest_index(members, upto - 1)
    }
}

/// What the generator asks of a struct: its layout and the estimate of its size.
pub trait CStructDefinition {
    /// The members in the order in which the struct is laid out with sorting.
    spec fn spec_sort_members(&self, configurations: &CompileConfigurations) -> Result<
        Seq<StructMember>,
        CompilerError,
    >;

    /// The members in the order in which the struct is laid out.
    spec fn spec_layout(&self, configurations: &CompileConfigurations) -> Result<
        Seq<StructMember>,
        CompilerError,
    >;

    /// The estimate of the size of the struct in bytes.
    spec fn spec_estimate_size(&self, configurations: &CompileConfigurations) -> Result<
        u64,
        CompilerError,
    >;

    /// The estimate of the size of the struct in bytes, with the padding that
    /// a C compiler may add unless the data is packed. The schema is malformed
    /// where a member has no size or the estimate does not fit in 64 bits, and a
    /// struct of size zero is a configuration error.
    fn estimate_size(&self, configurations: &CompileConfigurations) -> (result: Result<
        u64,
        CompilerError,
    >)
        ensures
            result == self.spec_estimate_size(configurations),
    ;

    /// Sort the members of a struct based on their size alignment to reduce
    /// eventual padding. Members of size zero are left out.
    fn sort_members<'a>(&'a self, configurations: &CompileConfigurations) -> (result: Result<
        Vec<&'a StructMember>,
        CompilerError,
    >)
        ensures
            match (result, self.spec_sort_members(configurations)) {
                (Ok(list), Ok(members)) => {
                    &&& list@.len() == members.len()
                    &&& forall|k: int| 0 <= k < list@.len() ==> *(#[trigger] list@[k]) == members[k]
                },
                (Err(error), Err(expected)) => error == expected,
                _ => false,
            },
    ;

    /// The members in the order in which the struct is declared in C: sorted
    /// where sorting is chosen, else as the schema declares them.
    fn layout<'a>(&'a self, configurations: &CompileConfigurations) -> (result: Result<
        Vec<&'a StructMember>,
        CompilerError,
    >)
        ensures
            match (result, self.spec_layout(configurations)) {
                (Ok(list), Ok(members)) => {
                    &&& list@.len() == members.len()
                    &&& forall|k: int| 0 <= k < list@.len() ==> *(#[trigger] list@[k]) == members[k]
                },
                (Err(error), Err(expected)) => error == expected,
                _ => false,
            },
    ;
}

impl StructDefinition {
    /// The members with their sizes, in the order in which the struct is laid out.
    pub open spec fn spec_order(&self, configurations: &CompileConfigurations) -> Seq<
        SizedStructMember,
    > {
        if configurations.sort {
            layout_order(
                sizes_of(self.members@),
                configurations.architecture.spec_byte_size() as u64,
            )
        } else {
            declaration_order(sizes_of(self.members@))
        }
    }

    /// The sizes of the members, in the order of declaration.
    pub fn member_sizes(&self) -> (result: Result<Vec<u64>, CompilerError>)
        ensures
            match result {
                Ok(sizes) => all_sized(self.members@) && sizes@ == sizes_of(self.members@),
                Err(error) => !all_sized(self.members@) && error == CompilerError::MalformedSource,
            },
    {
        let mut sizes: Vec<u64> = Vec::new();
        let mut i: usize = 0;
        while i < self.members.len()
            invariant
                i <= self.members.len(),
                sizes@.len() == i,
                forall|k: int|
                    0 <= k < i ==> #[trigger] member_size(&self.members@[k]) == Some(sizes@[k]),
            decreases self.members.len() - i,
        {
            match self.members[i].c_size() {
                Ok(size) => {
                    sizes.push(size);
                },
                Err(error) => {
                    assert(member_size(&self.members@[i as int]) is None);
                    return Err(error);
                },
            }
            i = i + 1;
        }
        proof {
            assert(sizes@ =~= sizes_of(self.members@));
        }
        Ok(sizes)
    }

    /// The largest slot that a member uses.
    pub fn highest_index(&self) -> (highest: u64)
        ensures
            highest == largest_index(self.members@, self.members@.len() as int),
    {
        let mut highest: u64 = 0;
        let mut i: usize = 0;
        while i < self.members.len()
            invariant
                i <= self.members.len(),
                highest == largest_index(self.members@, i as int),
            decreases self.members.len() - i,
        {
            let index = self.members[i].index.value();
            if index > highest {
                highest = index;
            }
            i = i + 1;
        }
        highest
    }
}

/// The estimate of the size of a struct with padding is never smaller than
/// the estimate for packed data, and the two are equal where no member needs
/// padding: where the offset at which each member comes is a multiple of its
/// alignment. Where there is an estimate with padding there is one without.
pub proof fn lemma_estimate_with_padding(
    struct_definition: &StructDefinition,
    packed: &CompileConfigurations,
    padded: &CompileConfigurations,
)
    requires
        packed.pack_data,
        !padded.pack_data,
        packed.sort == padded.sort,
        packed.architecture == padded.architecture,
    ensures
        struct_definition.spec_estimate_size(padded) is Ok ==> {
            &&& struct_definition.spec_estimate_size(packed) is Ok
            &&& struct_definition.spec_estimate_size(padded)->Ok_0
                >= struct_definition.spec_estimate_size(packed)->Ok_0
            &&& never_padded(struct_definition.spec_order(padded))
                ==> struct_definition.spec_estimate_size(padded)
                == struct_definition.spec_estimate_size(packed)
        },
{
    assert(struct_definition.spec_order(padded) == struct_definition.spec_order(packed));
    lemma_padding_never_shrinks(struct_definition.spec_order(padded));
}

impl CStructDefinition for StructDefinition {
    open spec fn spec_sort_members(&self, configurations: &CompileConfigurations) -> Result<
        Seq<StructMember>,
        CompilerError,
    > {
        if all_sized(self.members@) {
            let order = layout_order(
                sizes_of(self.members@),
                configurations.architecture.spec_byte_size() as u64,
            );
            Ok(Seq::new(order.len(), |k: int| self.members@[order[k].position as int]))
        } else {
            Err(CompilerError::MalformedSource)
        }
    }

    open spec fn spec_layout(&self, configurations: &CompileConfigurations) -> Result<
        Seq<StructMember>,
        CompilerError,
    > {
        if configurations.sort {
            self.spec_sort_members(configurations)
        } else {
            Ok(self.members@)
        }
    }

    open spec fn spec_estimate_size(&self, configurations: &CompileConfigurations) -> Result<
        u64,
        CompilerError,
    > {
        let total = layout_size(self.spec_order(configurations), configurations.pack_data);
        if !all_sized(self.members@) || total > u64::MAX {
            Err(CompilerError::MalformedSource)
        } else if total == 0 {
            Err(CompilerError::ConfigurationError)
        } else {
            Ok(total as u64)
        }
    }

    /// Sort the members of a struct based on their size alignment to reduce eventual padding
    fn sort_members<'a>(&'a self, configurations: &CompileConfigurations) -> (result: Result<
        Vec<&'a StructMember>,
        CompilerError,
    >) {
        let sizes = self.member_sizes()?;
        let order = sort_sizes(&sizes, configurations);
        proof {
            assert(sizes@.len() == sizes.len());
            lemma_layout_order_members(
                sizes@,
                configurations.architecture.spec_byte_size() as u64,
            );
        }
        let mut full_list: Vec<&'a StructMember> = Vec::new();
        let mut k: usize = 0;
        while k < order.len()
            invariant
                k <= order.len(),
                sizes@.len() == self.members@.len(),
                forall|j: int| 0 <= j < order.len() ==> (#[trigger] order@[j]).position < sizes@.len(),
                full_list@.len() == k,
                forall|j: int|
                    0 <= j < k ==> *(#[trigger] full_list@[j]) == self.members@[order@[j].position as int],
            decreases order.len() - k,
        {
            full_list.push(&self.members[order[k].position]);
            k = k + 1;
        }
        Ok(full_list)
    }

    fn layout<'a>(&'a self, configurations: &CompileConfigurations) -> (result: Result<
        Vec<&'a StructMember>,
        CompilerError,
    >) {
        if configurations.sort {
            self.sort_members(configurations)
        } else {
            let mut full_list: Vec<&'a StructMember> = Vec::new();
            let mut k: usize = 0;
            while k < self.members.len()
                invariant
                    k <= self.members.len(),
                    full_list@.len() == k,
                    forall|j: int| 0 <= j < k ==> *(#[trigger] full_list@[j]) == self.members@[j],
                decreases self.members.len() - k,
            {
                full_list.push(&self.members[k]);
                k = k + 1;
            }
            Ok(full_list)
        }
    }

    fn estimate_size(&self, configurations: &CompileConfigurations) -> (result: Result<
        u64,
        CompilerError,
    >) {
        let sizes = self.member_sizes()?;
        let struct_list = if configurations.sort {
            sort_sizes(&sizes, configurations)
        } else {
            keep_order(&sizes)
        };
        // Calculate padding
        match measure(&struct_list, configurations.pack_data) {
            None => Err(CompilerError::MalformedSource),
            Some(total_size) => {
                if total_size == 0 {
                    Err(CompilerError::ConfigurationError)
                } else {
                    Ok(total_size)
                }
            },
        }
    }
}

} // verus!
