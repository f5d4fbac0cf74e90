# rustogrammer

The histogramming core of a SpecTcl-like analysis server, as a Verus-verified
library, with a thin program around it.

* `src/` — the verified library:
  * `parameters` — parameter definitions, the parameter dictionary, events,
    the map from a data source's parameter ids to the dictionary's, and
    flattened events.
  * `conditions` — conditions (gates): true/false, not/and/or, cuts and
    multi cuts, bands, contours and multi contours, and the dictionary that
    names them and evaluates them with cached results.
  * `spectra` — spectra: their kinds, parameters, axes, gate and fold, the
    grid of channels (with underflow and overflow channels on each axis),
    channel access by channel number, contents within limits, and the fills
    that an event makes in each kind of spectrum.
  * `messaging` — requests and replies of the histogramming thread, the
    parameter and condition processors and the spectrum store that serve
    them, and the parameter, condition and spectrum clients with what they
    make of each reply.
  * `histogramer` — the request processor and server of the histogramming
    thread.
  * `processing` — the state of the event processing thread and its API.
  * `projections` — projecting spectra: checking the source spectrum and
    the region of interest, the sum vector, the spectrum that receives the
    projection, and the condition that gates it.
  * `glob_pattern`, `real_bits`, `ports` — glob matching of names (through
    the `glob` crate), the order of binary64 values held as bit patterns,
    and where the program's ports come from.
* `app/` — the program: threads, files, the port manager, and the floating
  point computations (whether a point lies below a band or inside a
  contour, the sums and coordinates of projections, the coordinates of the
  channels of new spectra, and the binning and counting of each fill the
  library computes for an event).
* `tests/` — tests of the library.

Parameter values, limits and points are carried as the bit patterns of
binary64 numbers (`f64::to_bits`); the library orders them exactly as
floating point comparison does.
