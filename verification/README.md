# fyaml

YAML documents in Rust, on top of the C library libfyaml: parsing, reading, editing and emitting.

## How it works

The library in `src/` decides and never calls libfyaml itself. Every operation is a *session*: it
asks for one call at a time, is handed the reply, and ends with its result. Whoever runs the
session makes the calls:

    let mut step = doc.edit().set_yaml_at("/name", "'Bob'");
    loop {
        match step {
            Step::Done(result) => break result,
            Step::Ask(session, call) => step = session.resume(perform(call)),
        }
    }

`app/` runs the sessions on libfyaml, through `fyaml-sys`, and wraps the library's types in ones
that release what they hold when they are dropped.

## What is proved

- Each session asks for exactly the calls that its contract states, whatever the replies are.
- `src/model/` models the node trees of libfyaml (`Heap`), the memory that texts are read from
  (`Snapshot`), emitters (`Press`), input (`Reader`), streams of documents (`Stream`) and what has
  to be given back (`Ledger`), together with what each call does to them.
- `src/laws/` states what the sessions achieve on these models: what was set is what a later read
  finds, and it looks as libfyaml reads the snippet; a failed edit changes nothing; a deletion
  removes exactly what the path points at; a sort only reorders; the events of an emission make up
  the emitted text; input is treated alike whichever way it comes; the documents of a stream come in
  their order, and then the end or the error; nothing is leaked, freed twice or used once it was
  freed.

The models say what a call does where libfyaml documents it or its source shows it. What only libfyaml
can know they name, and leave open what it is: what it makes of a snippet or a stream, how it lays
out what it emits, and which way it takes for path steps that are neither indices nor plain names. A
plain name is one that YAML reads as the
scalar with just these characters, such as `my-key`, `version.2`, `$ref`, `a:b`, `a[0]` or
`first name`. As a step of a path it also has to be ASCII without quotes and backslashes; as the
last key of an edit, or asked of a mapping, it may be any plain name.

## Layout

| where                | what                                                        |
|----------------------|-------------------------------------------------------------|
| `src/call.rs`        | calls, replies, sessions                                    |
| `src/document.rs`    | documents and how they come about                           |
| `src/node_ref.rs`    | reading nodes                                               |
| `src/editor.rs`      | editing; the sessions are in the modules named after them   |
| `src/emitter.rs`     | emitting, with typed events                                 |
| `src/parser.rs`      | streams of documents                                        |
| `src/model/`, `laws/`| the models and the laws                                     |
| `tests/`             | the library on a small in-memory stand-in for libfyaml      |
| `app/`               | the library on libfyaml                                     |
