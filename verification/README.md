# cairo_cuda_witness

Witness generation for Cairo proofs on a CUDA device, with the bookkeeping around the kernels
verified by Verus.

The library (`src/`) holds everything that is decided on the host: how inputs are packed and padded
before a launch, the shape of every buffer, which columns feed which component, how lookups are
counted, how the lookup elements of a relation are derived, how preprocessed columns are named and
generated, how columns are grouped for interpolation, and the order in which columns are committed.
Columns are modelled by their contents, so contracts speak of sequences of numbers.

| Module | Contents |
| --- | --- |
| `column`, `inputs`, `launch`, `tree_builder` | columns, what components are fed with, buffers, commitments |
| `field`, `lookup`, `logup` | field elements, lookup elements, contributions of table rows |
| `components_cuda` | the components: opcodes, instructions, hashes, tables |
| `opcodes_cuda`, `range_checks_cuda` | all opcodes, all tables of tuples |
| `preprocessed_ids`, `preprocessed_columns`, `preprocessed_trace_cuda`, `interpolation` | preprocessed columns |
| `checks`, `opcode_checks`, `hash_checks` | run-time tests of what a caller has to bring |
| `bits`, `sorting`, `text` | powers of two, stable order, decimal names |

The application (`app/`) owns the device: it uploads columns, launches kernels, tests what they wrote
and hands it to the library.

Statements that relate several functions are proof functions whose names begin with `law_`.
