use logrep::Searcher;
use logrep::create_block_searcher;

const TEXT: &str = "\
        Logrep: Block-oriented mini grep tool\n\
        ---\n\
        This is text for testing.\n\
        Text will be separated into blocks by a delimiter \"---\".\n\
        Of course, these \"---\" not at the beginning of line are not treated as a delimiter. \n\
        ---\n\
        You can search plain text or regular expressions, case-sensitively or case-insensitively.\n\
        ---\n\
        Unlike our lovely grep, which doesn't care about semantics, treat each lines as isolated,\n\
        logrep split the text into blocks by delimiter, and any line of each block matches the given pattern,\n\
        then it prints out all of the block.\n\
        ---\n\
        It's very useful for searching log files or chaptered text like markdown.\n\
        Now, let's try out Logrep!\
    ";

#[test]
fn test_simple_search() {
    let delimiter = "^---";
    let pattern = "Log";
    let use_regex = false;
    let case_insensitive = false;
    let exclude = false;

    let searcher =
        create_block_searcher(delimiter, pattern, use_regex, case_insensitive, exclude).unwrap();
    let result = searcher.search_from_str(TEXT);
    let expected = "\
                        Logrep: Block-oriented mini grep tool\n\
                        ---\n\
                        It's very useful for searching log files or chaptered text like markdown.\n\
                        Now, let's try out Logrep!\
                        ";

    assert_eq!(result.join("\n"), expected)
}

#[test]
fn test_regex_search() {
    let delimiter = "^---";
    let pattern = "L.g";
    let use_regex = true;
    let case_insensitive = false;
    let exclude = false;

    let searcher =
        create_block_searcher(delimiter, pattern, use_regex, case_insensitive, exclude).unwrap();
    let result = searcher.search_from_str(TEXT);
    let expected = "\
                        Logrep: Block-oriented mini grep tool\n\
                        ---\n\
                        It's very useful for searching log files or chaptered text like markdown.\n\
                        Now, let's try out Logrep!\
                        ";

    assert_eq!(result.join("\n"), expected)
}

#[test]
fn test_case_insensitive_search() {
    let delimiter = "^---";
    let pattern = "log";
    let use_regex = false;
    let case_insensitive = true;
    let exclude = false;

    let searcher =
        create_block_searcher(delimiter, pattern, use_regex, case_insensitive, exclude).unwrap();
    let result = searcher.search_from_str(TEXT);
    let expected = "\
                        Logrep: Block-oriented mini grep tool\n\
                        ---\n\
                        Unlike our lovely grep, which doesn't care about semantics, treat each lines as isolated,\n\
                        logrep split the text into blocks by delimiter, and any line of each block matches the given pattern,\n\
                        then it prints out all of the block.\n\
                        ---\n\
                        It's very useful for searching log files or chaptered text like markdown.\n\
                        Now, let's try out Logrep!\
                        ";

    assert_eq!(result.join("\n"), expected)
}

#[test]
fn test_exclude_mode() {
    let delimiter = "^---";
    let pattern = "L.g";
    let use_regex = true;
    let case_insensitive = true;
    let exclude = true;

    let searcher =
        create_block_searcher(delimiter, pattern, use_regex, case_insensitive, exclude).unwrap();
    let result = searcher.search_from_str(TEXT);
    let expected = "\
                        ---\n\
                        This is text for testing.\n\
                        Text will be separated into blocks by a delimiter \"---\".\n\
                        Of course, these \"---\" not at the beginning of line are not treated as a delimiter. \n\
                        ---\n\
                        You can search plain text or regular expressions, case-sensitively or case-insensitively.\
                        ";

    assert_eq!(result.join("\n"), expected)
}
