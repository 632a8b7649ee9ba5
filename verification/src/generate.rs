use vstd::prelude::*;

use crate::c_utilities::{CConfigurations, CompileConfigurations};
use crate::compiler_error::CompilerError;
use crate::header::{header_file, output_header};
use crate::output_file::{OutputFile, OutputFileView};
use crate::parser::{output_parser, parser_file};
use crate::runic_definitions::{definitions_file, output_runic_definitions};
use crate::schema::RuneFileDescription;
use crate::source::{output_source, source_file};
use crate::text::uppercase;

verus! {

/// The header and the source of each of the first `upto` schema files, or
/// the error of the first file that fails.
pub open spec fn file_pairs(
    files: Seq<RuneFileDescription>,
    configurations: &CConfigurations,
    output_path: Seq<char>,
    upto: int,
) -> Result<Seq<OutputFileView>, CompilerError>
    decreases upto,
{
    if upto <= 0 {
        Ok(Seq::empty())
    } else {
        match file_pairs(files, configurations, output_path, upto - 1) {
            Err(error) => Err(error),
            Ok(before) => match header_file(
                &files[upto - 1],
                configurations,
                output_path,
                uppercase(files[upto - 1].name@),
            ) {
                Err(error) => Err(error),
                Ok(header) => match source_file(&files[upto - 1], configurations, output_path) {
                    Err(error) => Err(error),
                    Ok(source) => Ok(before.push(header).push(source)),
                },
            },
        }
    }
}

/// All the files that a schema is compiled to: the shared definitions, a
/// header and a source for each schema file, and the parser table. The widths
/// that the whole schema decides are settled first. Any failure leaves no file.
pub open spec fn generated_files(
    files: Seq<RuneFileDescription>,
    output_path: Seq<char>,
    configurations: &CompileConfigurations,
) -> Result<Seq<OutputFileView>, CompilerError> {
    match CConfigurations::spec_parse(files, configurations) {
        Err(error) => Err(error),
        Ok(c_configurations) => match definitions_file(&c_configurations, output_path) {
            Err(error) => Err(error),
            Ok(definitions) => match file_pairs(
                files,
                &c_configurations,
                output_path,
                files.len() as int,
            ) {
                Err(error) => Err(error),
                Ok(pairs) => Ok(
                    (seq![definitions] + pairs).push(parser_file(files, output_path)),
                ),
            },
        },
    }
}

/// Once a file has failed, more files do not change the outcome.
pub proof fn lemma_file_pairs_failure_stays(
    files: Seq<RuneFileDescription>,
    configurations: &CConfigurations,
    output_path: Seq<char>,
    earlier: int,
    later: int,
)
    requires
        earlier <= later,
        file_pairs(files, configurations, output_path, earlier) is Err,
    ensures
        file_pairs(files, configurations, output_path, later) == file_pairs(
            files,
            configurations,
            output_path,
            earlier,
        ),
    decreases later - earlier,
{
    if earlier < later {
        lemma_file_pairs_failure_stays(files, configurations, output_path, earlier, later - 1);
    }
}

/// Whether a list of files holds what is expected, one for one.
pub open spec fn holds_files(list: Seq<OutputFile>, views: Seq<OutputFileView>) -> bool {
    list.len() == views.len() && forall|k: int| 0 <= k < list.len() ==> (#[trigger] list[k])@
        == views[k]
}

/// Compiles a schema to C: gives all the files to write, in the order in
/// which they are written, or the first error.
pub fn output_c_files(
    file_descriptions: &Vec<RuneFileDescription>,
    output_path: &str,
    configurations: &CompileConfigurations,
) -> (result: Result<Vec<OutputFile>, CompilerError>)
    ensures
        match generated_files(file_descriptions@, output_path@, configurations) {
            Ok(views) => result is Ok && holds_files(result->Ok_0@, views),
            Err(error) => result is Err && result->Err_0 == error,
        },
{
    let c_configurations: CConfigurations = CConfigurations::parse(
        file_descriptions,
        configurations,
    )?;
    let mut files: Vec<OutputFile> = Vec::new();

    // Create runic definitions file
    let definitions = output_runic_definitions(file_descriptions, &c_configurations, output_path)?;
    let ghost first = definitions@;
    files.push(definitions);

    // Create source and header files matching the Rune files
    let ghost mut pairs = Seq::<OutputFileView>::empty();
    let mut i: usize = 0;
    while i < file_descriptions.len()
        invariant
            i <= file_descriptions.len(),
            CConfigurations::spec_parse(file_descriptions@, configurations) == Ok::<
                CConfigurations,
                CompilerError,
            >(c_configurations),
            definitions_file(&c_configurations, output_path@) == Ok::<
                OutputFileView,
                CompilerError,
            >(first),
            file_pairs(file_descriptions@, &c_configurations, output_path@, i as int) == Ok::<
                Seq<OutputFileView>,
                CompilerError,
            >(pairs),
            holds_files(files@, seq![first] + pairs),
        decreases file_descriptions.len() - i,
    {
        let file = &file_descriptions[i];

        // Create header file
        let header = match output_header(file, &c_configurations, output_path) {
            Ok(header) => header,
            Err(error) => {
                proof {
                    assert(file_pairs(
                        file_descriptions@,
                        &c_configurations,
                        output_path@,
                        i + 1,
                    ) == Err::<Seq<OutputFileView>, CompilerError>(error));
                    lemma_file_pairs_failure_stays(
                        file_descriptions@,
                        &c_configurations,
                        output_path@,
                        i + 1,
                        file_descriptions@.len() as int,
                    );
                }
                return Err(error);
            },
        };

        // Create source file
        let source = match output_source(file, &c_configurations, output_path) {
            Ok(source) => source,
            Err(error) => {
                proof {
                    assert(file_pairs(
                        file_descriptions@,
                        &c_configurations,
                        output_path@,
                        i + 1,
                    ) == Err::<Seq<OutputFileView>, CompilerError>(error));
                    lemma_file_pairs_failure_stays(
                        file_descriptions@,
                        &c_configurations,
                        output_path@,
                        i + 1,
                        file_descriptions@.len() as int,
                    );
                }
                return Err(error);
            },
        };
        proof {
            let before = pairs;
            pairs = pairs.push(header@).push(source@);
            assert(seq![first] + pairs =~= (seq![first] + before).push(header@).push(source@));
        }
        files.push(header);
        files.push(source);
        i = i + 1;
    }

    // Create parser
    let parser = match output_parser(file_descriptions, &c_configurations, output_path) {
        Ok(parser) => parser,
        Err(error) => {
            return Err(error);
        },
    };
    files.push(parser);
    Ok(files)
}

} // verus!
