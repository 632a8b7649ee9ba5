use vstd::prelude::*;
use vstd::seq_lib::{to_multiset_build, to_multiset_insert};

use crate::c_utilities::{all_structs, pascal_to_snake_case, snake_case, CConfigurations};
use crate::compiler_error::CompilerError;
use crate::header::file_of;
use crate::output_file::{OutputFile, OutputFileView};
use crate::schema::{RuneFileDescription, StructDefinition};
use crate::text::{line, line_of, push_line, upper, upper_letter};

verus! {

// The order of the names

/// Whether one name comes before another in the alphabet, where the case
/// of ASCII letters does not count and the names agree on the characters in
/// front of `from`: at the first place where they differ the character of the
/// first name is the smaller one, or the first name ends there.
pub open spec fn before_from(first: Seq<char>, second: Seq<char>, from: int) -> bool
    decreases second.len() - from,
{
    if from < 0 || from >= second.len() {
        false
    } else if from >= first.len() {
        true
    } else if upper(first[from]) < upper(second[from]) {
        true
    } else if upper(first[from]) > upper(second[from]) {
        false
    } else {
        before_from(first, second, from + 1)
    }
}

/// Whether one name comes before another in the alphabet, where the case
/// of ASCII letters does not count.
pub open spec fn name_before(first: Seq<char>, second: Seq<char>) -> bool {
    before_from(first, second, 0)
}

/// The place at or behind `from` where a struct of a given name goes into a
/// sorted list: in front of the first struct whose name comes after it.
pub open spec fn insertion_place(sorted: Seq<StructDefinition>, name: Seq<char>, from: int) -> int
    decreases sorted.len() - from,
{
    if from < 0 || from >= sorted.len() {
        sorted.len() as int
    } else if name_before(name, sorted[from].name@) {
        from
    } else {
        insertion_place(sorted, name, from + 1)
    }
}

/// The first `upto` structs sorted by name. Structs of the same name keep
/// their order.
pub open spec fn sorted_by_name(structs: Seq<StructDefinition>, upto: int) -> Seq<
    StructDefinition,
>
    decreases upto,
{
    if upto <= 0 {
        Seq::empty()
    } else {
        sorted_by_name(structs, upto - 1).insert(
            insertion_place(sorted_by_name(structs, upto - 1), structs[upto - 1].name@, 0),
            structs[upto - 1],
        )
    }
}

/// The place where a struct goes into a sorted list lies within the list or
/// at its end.
pub proof fn lemma_insertion_place_in_range(
    sorted: Seq<StructDefinition>,
    name: Seq<char>,
    from: int,
)
    requires
        0 <= from <= sorted.len(),
    ensures
        from <= insertion_place(sorted, name, from) <= sorted.len(),
    decreases sorted.len() - from,
{
    if from < sorted.len() && !name_before(name, sorted[from].name@) {
        lemma_insertion_place_in_range(sorted, name, from + 1);
    }
}

/// Sorting neither adds nor drops a struct.
pub proof fn lemma_sorted_by_name_length(structs: Seq<StructDefinition>, upto: int)
    requires
        0 <= upto,
    ensures
        sorted_by_name(structs, upto).len() == upto,
    decreases upto,
{
    if upto > 0 {
        lemma_sorted_by_name_length(structs, upto - 1);
        lemma_insertion_place_in_range(
            sorted_by_name(structs, upto - 1),
            structs[upto - 1].name@,
            0,
        );
    }
}

/// No name comes before itself.
pub proof fn lemma_before_is_irreflexive(name: Seq<char>, from: int)
    requires
        0 <= from,
    ensures
        !before_from(name, name, from),
    decreases name.len() - from,
{
    if from < name.len() {
        lemma_before_is_irreflexive(name, from + 1);
    }
}

/// A name that comes before a second one, which comes before a third one,
/// comes before the third one.
pub proof fn lemma_before_is_transitive(
    first: Seq<char>,
    second: Seq<char>,
    third: Seq<char>,
    from: int,
)
    requires
        0 <= from,
        before_from(first, second, from),
        before_from(second, third, from),
    ensures
        before_from(first, third, from),
    decreases third.len() - from,
{
    if from < first.len() && upper(first[from]) == upper(second[from]) && upper(second[from])
        == upper(third[from]) {
        lemma_before_is_transitive(first, second, third, from + 1);
    }
}

/// Whether a list of structs is in the order of the alphabet: no struct has
/// a name that comes before the name of a struct in front of it.
pub open spec fn in_order(list: Seq<StructDefinition>) -> bool {
    forall|i: int, j: int|
        0 <= i < j < list.len() ==> !name_before(
            (#[trigger] list[j]).name@,
            (#[trigger] list[i]).name@,
        )
}

/// The place where a struct goes into a list is the first place at or
/// behind `from` whose struct has a name that comes after its name.
pub proof fn lemma_insertion_place_is_first(
    sorted: Seq<StructDefinition>,
    name: Seq<char>,
    from: int,
)
    requires
        0 <= from <= sorted.len(),
    ensures
        forall|k: int|
            from <= k < insertion_place(sorted, name, from) ==> !name_before(
                name,
                (#[trigger] sorted[k]).name@,
            ),
        insertion_place(sorted, name, from) < sorted.len() ==> name_before(
            name,
            sorted[insertion_place(sorted, name, from)].name@,
        ),
    decreases sorted.len() - from,
{
    if from < sorted.len() && !name_before(name, sorted[from].name@) {
        lemma_insertion_place_is_first(sorted, name, from + 1);
    }
}

/// Sorting puts the structs in the order of the alphabet.
pub proof fn lemma_sorted_by_name_is_in_order(structs: Seq<StructDefinition>, upto: int)
    requires
        0 <= upto <= structs.len(),
    ensures
        in_order(sorted_by_name(structs, upto)),
    decreases upto,
{
    if upto > 0 {
        lemma_sorted_by_name_is_in_order(structs, upto - 1);
        let before = sorted_by_name(structs, upto - 1);
        let added = structs[upto - 1];
        let place = insertion_place(before, added.name@, 0);
        lemma_insertion_place_in_range(before, added.name@, 0);
        lemma_insertion_place_is_first(before, added.name@, 0);
        let after = sorted_by_name(structs, upto);
        assert(after == before.insert(place, added));
        assert forall|i: int, j: int| 0 <= i < j < after.len() implies !name_before(
            (#[trigger] after[j]).name@,
            (#[trigger] after[i]).name@,
        ) by {
            if j == place {
                // The struct in front stayed where it was.
                assert(after[i] == before[i]);
            } else if i == place {
                // The struct behind came after the place of the added one.
                assert(after[j] == before[j - 1]);
                if name_before(after[j].name@, added.name@) {
                    lemma_before_is_transitive(
                        after[j].name@,
                        added.name@,
                        before[place].name@,
                        0,
                    );
                    if j - 1 == place {
                        lemma_before_is_irreflexive(before[place].name@, 0);
                    } else {
                        assert(!name_before(before[j - 1].name@, before[place].name@));
                    }
                }
            } else {
                let old_i = if i < place {
                    i
                } else {
                    i - 1
                };
                let old_j = if j < place {
                    j
                } else {
                    j - 1
                };
                assert(after[i] == before[old_i]);
                assert(after[j] == before[old_j]);
                assert(!name_before(before[old_j].name@, before[old_i].name@));
            }
        }
    }
}

/// Sorting neither adds nor drops a struct, nor takes one twice.
pub proof fn lemma_sorted_by_name_is_permutation(structs: Seq<StructDefinition>, upto: int)
    requires
        0 <= upto <= structs.len(),
    ensures
        sorted_by_name(structs, upto).to_multiset() =~= structs.take(upto).to_multiset(),
    decreases upto,
{
    if upto == 0 {
        assert(structs.take(0) =~= Seq::<StructDefinition>::empty());
    } else {
        lemma_sorted_by_name_is_permutation(structs, upto - 1);
        let before = sorted_by_name(structs, upto - 1);
        let added = structs[upto - 1];
        lemma_insertion_place_in_range(before, added.name@, 0);
        to_multiset_insert(before, insertion_place(before, added.name@, 0), added);
        assert(structs.take(upto) =~= structs.take(upto - 1).push(added));
        to_multiset_build(structs.take(upto - 1), added);
    }
}

/// Whether a list of references holds some structs, one for one.
pub open spec fn holds_structs(list: Seq<&StructDefinition>, structs: Seq<StructDefinition>) -> bool {
    list.len() == structs.len() && forall|k: int|
        0 <= k < list.len() ==> *(#[trigger] list[k]) == structs[k]
}

/// Whether one name comes before another in the alphabet.
pub fn comes_before(first: &str, second: &str) -> (before: bool)
    ensures
        before == name_before(first@, second@),
{
    let first_length = first.unicode_len();
    let second_length = second.unicode_len();
    let mut i: usize = 0;
    while i < second_length
        invariant
            i <= second_length,
            first_length == first@.len(),
            second_length == second@.len(),
            i <= first_length,
            name_before(first@, second@) == before_from(first@, second@, i as int),
        decreases second_length - i,
    {
        if i >= first_length {
            return true;
        }
        let left = upper_letter(first.get_char(i));
        let right = upper_letter(second.get_char(i));
        if left < right {
            return true;
        }
        if left > right {
            return false;
        }
        i = i + 1;
    }
    false
}

/// All the structs of all the files, file by file.
pub fn gather_structs<'a>(file_descriptions: &'a Vec<RuneFileDescription>) -> (list: Vec<
    &'a StructDefinition,
>)
    ensures
        holds_structs(list@, all_structs(file_descriptions@, file_descriptions@.len() as int)),
{
    // Create a list with all declared structs across all files
    let mut struct_definitions: Vec<&'a StructDefinition> = Vec::new();
    let mut i: usize = 0;
    while i < file_descriptions.len()
        invariant
            i <= file_descriptions.len(),
            holds_structs(struct_definitions@, all_structs(file_descriptions@, i as int)),
        decreases file_descriptions.len() - i,
    {
        let file = &file_descriptions[i];
        let ghost before = all_structs(file_descriptions@, i as int);
        let mut j: usize = 0;
        while j < file.definitions.structs.len()
            invariant
                j <= file.definitions.structs.len(),
                i < file_descriptions.len(),
                *file == file_descriptions@[i as int],
                before == all_structs(file_descriptions@, i as int),
                holds_structs(
                    struct_definitions@,
                    before + file.definitions.structs@.take(j as int),
                ),
            decreases file.definitions.structs.len() - j,
        {
            struct_definitions.push(&file.definitions.structs[j]);
            proof {
                assert(before + file.definitions.structs@.take(j + 1) =~= (before
                    + file.definitions.structs@.take(j as int)).push(
                    file.definitions.structs@[j as int],
                ));
            }
            j = j + 1;
        }
        proof {
            assert(file.definitions.structs@.take(file.definitions.structs@.len() as int)
                =~= file.definitions.structs@);
        }
        i = i + 1;
    }
    struct_definitions
}

/// Sorts structs by name. Structs of the same name keep their order.
pub fn sort_structs<'a>(struct_definitions: &Vec<&'a StructDefinition>) -> (sorted: Vec<
    &'a StructDefinition,
>)
    ensures
        holds_structs(
            sorted@,
            sorted_by_name(structs_held(struct_definitions@), struct_definitions@.len() as int),
        ),
{
    let ghost structs = structs_held(struct_definitions@);
    let mut sorted: Vec<&'a StructDefinition> = Vec::new();
    let mut i: usize = 0;
    while i < struct_definitions.len()
        invariant
            i <= struct_definitions.len(),
            structs == structs_held(struct_definitions@),
            holds_structs(sorted@, sorted_by_name(structs, i as int)),
        decreases struct_definitions.len() - i,
    {
        let item = struct_definitions[i];
        let ghost before = sorted_by_name(structs, i as int);
        proof {
            assert(*struct_definitions@[i as int] == structs[i as int]);
        }
        // Look for the first struct whose name comes after this one
        let mut place: usize = 0;
        while place < sorted.len() && !comes_before(
            item.name.as_str(),
            sorted[place].name.as_str(),
        )
            invariant
                place <= sorted.len(),
                holds_structs(sorted@, before),
                *item == structs[i as int],
                insertion_place(before, item.name@, 0) == insertion_place(
                    before,
                    item.name@,
                    place as int,
                ),
            decreases sorted.len() - place,
        {
            proof {
                assert(*sorted@[place as int] == before[place as int]);
            }
            place = place + 1;
        }
        proof {
            if place < sorted.len() {
                assert(*sorted@[place as int] == before[place as int]);
            }
            assert(insertion_place(before, item.name@, 0) == place);
        }
        sorted.insert(place, item);
        proof {
            let after = before.insert(place as int, structs[i as int]);
            assert forall|k: int| 0 <= k < sorted@.len() implies *(#[trigger] sorted@[k])
                == after[k] by {
                if k < place {
                    assert(after[k] == before[k]);
                } else if k > place {
                    assert(after[k] == before[k - 1]);
                }
            }
        }
        i = i + 1;
    }
    sorted
}

// The text of the parser

/// The declarations of the descriptors of the first `upto` structs.
pub open spec fn parser_declarations(sorted: Seq<StructDefinition>, upto: int) -> Seq<char>
    decreases upto,
{
    if upto <= 0 {
        Seq::empty()
    } else {
        parser_declarations(sorted, upto - 1) + line(
            "extern rune_descriptor_t "@ + snake_case(sorted[upto - 1].name@) + "_descriptor;"@,
        )
    }
}

/// The entries of the parser table for the first `upto` structs.
pub open spec fn parser_entries(sorted: Seq<StructDefinition>, upto: int) -> Seq<char>
    decreases upto,
{
    if upto <= 0 {
        Seq::empty()
    } else {
        parser_entries(sorted, upto - 1) + line(
            "    &"@ + snake_case(sorted[upto - 1].name@) + "_descriptor"@ + (if upto
                == sorted.len() {
                ""@
            } else {
                ","@
            }),
        )
    }
}

/// The declarations of the descriptors of some structs, with an empty line
/// behind them, or nothing where there is no struct.
pub open spec fn parser_declarations_block(sorted: Seq<StructDefinition>) -> Seq<char> {
    if sorted.len() == 0 {
        Seq::empty()
    } else {
        parser_declarations(sorted, sorted.len() as int) + "\n"@
    }
}

/// The text of the parser: the table of the descriptors of some structs, in
/// the order given.
pub open spec fn parser_text(sorted: Seq<StructDefinition>) -> Seq<char> {
    line("#include \"rune.h\""@) + "\n"@ + parser_declarations_block(sorted) + line(
        "static rune_descriptor_t* RUNIC_PARSER parser_array[RUNE_PARSER_COUNT] = {"@,
    ) + parser_entries(sorted, sorted.len() as int) + line("};"@) + "\n"@
}

/// The structs that a list refers to.
pub open spec fn structs_held(list: Seq<&StructDefinition>) -> Seq<StructDefinition> {
    Seq::new(list.len(), |k: int| *list[k])
}

/// The file of the parser: the table of the descriptors of all structs of
/// all files, sorted by name.
#[verifier::opaque]
pub open spec fn parser_file(files: Seq<RuneFileDescription>, output_path: Seq<char>) -> OutputFileView {
    let structs = all_structs(files, files.len() as int);
    OutputFileView {
        path: output_path,
        name: "runic_parser.c"@,
        text: parser_text(sorted_by_name(structs, structs.len() as int)),
    }
}

/// The declarations of the descriptors, with an empty line behind them.
pub fn parser_declarations_text(struct_definitions: &Vec<&StructDefinition>) -> (text: String)
    ensures
        text@ == parser_declarations_block(structs_held(struct_definitions@)),
{
    let ghost structs = structs_held(struct_definitions@);
    let mut text = String::new();
    // External parser definitions
    if struct_definitions.len() != 0 {
        let mut i: usize = 0;
        while i < struct_definitions.len()
            invariant
                i <= struct_definitions.len(),
                structs == structs_held(struct_definitions@),
                text@ == parser_declarations(structs, i as int),
            decreases struct_definitions.len() - i,
        {
            let mut row = String::from_str("extern rune_descriptor_t ");
            row.append(pascal_to_snake_case(struct_definitions[i].name.as_str()).as_str());
            row.append("_descriptor;");
            push_line(&mut text, row.as_str());
            i = i + 1;
        }
        text.append("\n");
    }
    text
}

/// The entries of the parser table.
pub fn parser_entries_text(struct_definitions: &Vec<&StructDefinition>) -> (text: String)
    ensures
        text@ == parser_entries(
            structs_held(struct_definitions@),
            struct_definitions@.len() as int,
        ),
{
    let ghost structs = structs_held(struct_definitions@);
    let mut text = String::new();
    let mut i: usize = 0;
    while i < struct_definitions.len()
        invariant
            i <= struct_definitions.len(),
            structs == structs_held(struct_definitions@),
            text@ == parser_entries(structs, i as int),
        decreases struct_definitions.len() - i,
    {
        let mut row = String::from_str("    &");
        row.append(pascal_to_snake_case(struct_definitions[i].name.as_str()).as_str());
        row.append("_descriptor");
        if i == struct_definitions.len() - 1 {
            row.append("");
        } else {
            row.append(",");
        }
        push_line(&mut text, row.as_str());
        i = i + 1;
    }
    text
}

/// The file of the parser, which lists the descriptors of all structs
/// sorted by name.
pub fn output_parser(
    file_descriptions: &Vec<RuneFileDescription>,
    _configurations: &CConfigurations,
    output_path: &str,
) -> (result: Result<OutputFile, CompilerError>)
    ensures
        file_of(result) == Ok::<OutputFileView, CompilerError>(
            parser_file(file_descriptions@, output_path@),
        ),
{
    let parser_file_string: String = String::from_str("runic_parser.c");
    proof {
        reveal(parser_file);
        crate::text::lemma_known_lengths();
    }
    let mut parser_file: OutputFile = OutputFile::new(
        String::from_str(output_path),
        parser_file_string,
    );

    // Create a list with all declared structs across all files
    let gathered = gather_structs(file_descriptions);
    let ghost structs = all_structs(file_descriptions@, file_descriptions@.len() as int);

    // Sort the list alphabetically
    let struct_definitions = sort_structs(&gathered);
    let ghost sorted = sorted_by_name(structs, structs.len() as int);
    proof {
        assert(structs_held(gathered@) =~= structs);
        assert(structs_held(struct_definitions@) =~= sorted);
    }

    // Inclusions
    let mut text = line_of("#include \"rune.h\"");
    text.append("\n");

    // External parser definitions
    text.append(parser_declarations_text(&struct_definitions).as_str());

    // Define parser array
    push_line(
        &mut text,
        "static rune_descriptor_t* RUNIC_PARSER parser_array[RUNE_PARSER_COUNT] = {",
    );
    text.append(parser_entries_text(&struct_definitions).as_str());
    push_line(&mut text, "};");
    text.append("\n");

    parser_file.add_text(text.as_str());
    proof {
        assert(parser_file@.text =~= text@);
    }
    Ok(parser_file)
}

} // verus!
