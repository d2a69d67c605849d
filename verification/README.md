# ntscan

A scanner that looks for security bugs in C, C++, Java, Python and JavaScript sources, written in
Verus: what each analysis reports is stated in contracts and proved.

## Layout

- `src/` is the library. All of it is verified but `outside`, whose contracts are believed.
  - `syntax`: syntax trees as plain values; `text`, `names`, `rule`, `finding`: what the analyses
    are built from.
  - `c_checks`, `symbolic`, `taint`, `advanced`, `dataflow`, `types`, `callgraph`: the analyses of
    C and C++.
  - `java`, `python`, `javascript`, `patterns`: the analyses of the other languages.
  - `scanner`: which analysis a source gets, and what a scan of it gives; `language`: the languages.
  - `config`, `select`, `results`: options, which files are scanned, and what becomes of findings.
  - `paint`, `report`, `sarif`, `tui`: what is shown.
  - `outside`: the functions of other crates and of the standard library that are believed to do
    what their contracts say.
  - `laws`: what holds of every scan.
- `tests/` runs the library on concrete sources and values.
- `app/` is the program: the command line, files, threads and the terminal.

## What is proved

A scan reports what the rules say, node by node and in the order of the source; nothing else is
reported and nothing is left out. The rules are spec functions over the tree. Proof functions beside
them state what follows: a variable that is freed twice is reported, a report shows every finding
under its file, a saved baseline hides the scan that it was saved from, and others.

What the parser gives for a source is taken as it comes: `SyntaxTree::new` refuses nodes that form
no tree, and every analysis is proved for any tree.
