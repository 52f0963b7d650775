//! The order of the scalar field is prime, and 11 has a power of order 2^47 modulo it.
//!
//! The proofs are certificates for Pocklington's criterion. Powers are computed bit by bit: each
//! step gives the residues that the squarings run through, and the prover recomputes them.

use vstd::arithmetic::power::*;
use vstd::prelude::*;

use crate::primes;

verus! {

/// Eight bits of an exponent at once, for `prime_x_half`.
proof fn prime_x_half_octet(
    e: nat,
    b: (nat, nat, nat, nat),
    c: (nat, nat, nat, nat),
    x0: int,
    x1: int,
    x2: int,
    x3: int,
    x4: int,
    x5: int,
    x6: int,
    x7: int,
    x8: int,
)
    requires
        b.0 <= 1,
        b.1 <= 1,
        b.2 <= 1,
        b.3 <= 1,
        c.0 <= 1,
        c.1 <= 1,
        c.2 <= 1,
        c.3 <= 1,
        pow(11, e) % 9586122913090633729int == x0,
        primes::bit_step(x0, b.0, 11, 9586122913090633729int) == x1,
        primes::bit_step(x1, b.1, 11, 9586122913090633729int) == x2,
        primes::bit_step(x2, b.2, 11, 9586122913090633729int) == x3,
        primes::bit_step(x3, b.3, 11, 9586122913090633729int) == x4,
        primes::bit_step(x4, c.0, 11, 9586122913090633729int) == x5,
        primes::bit_step(x5, c.1, 11, 9586122913090633729int) == x6,
        primes::bit_step(x6, c.2, 11, 9586122913090633729int) == x7,
        primes::bit_step(x7, c.3, 11, 9586122913090633729int) == x8,
    ensures
        pow(
            11,
            256 * e + 128 * b.0 + 64 * b.1 + 32 * b.2 + 16 * b.3 + 8 * c.0 + 4 * c.1 + 2 * c.2 + c.3,
        ) % 9586122913090633729int == x8,
{
    primes::lemma_four_bits(11, 9586122913090633729int, e, b, x0, x1, x2, x3, x4);
    let f = 16 * e + 8 * b.0 + 4 * b.1 + 2 * b.2 + b.3;
    primes::lemma_four_bits(11, 9586122913090633729int, f, c, x4, x5, x6, x7, x8);
}

/// On the way to `prime_x_half`.
proof fn prime_x_half_1()
    ensures
        pow(11, 18722896314630144nat) % 9586122913090633729int == 1171544009806017255int,
{
    primes::lemma_first_powers(11, 9586122913090633729int);
    let e: nat = 1;
    primes::lemma_bit_step(11, 9586122913090633729int, e, 0, 11);
    let e: nat = 2 * e + 0;
    primes::lemma_bit_step(11, 9586122913090633729int, e, 0, 121);
    let e: nat = 2 * e + 0;
    primes::lemma_four_bits(11, 9586122913090633729int, e, (0, 0, 1, 0), 14641, 214358881, 45949729863572161int, 5576629319210538778int, 7760790664536600233int);
    let e: nat = 16 * e + 2;
    prime_x_half_octet(
        e,
        (1, 0, 0, 0),
        (0, 1, 0, 0),
        7760790664536600233int,
        3365798862128437181int,
        4541700175252797569int,
        7382454695957488850int,
        1996018001863420568int,
        3256532786361252582int,
        8851406004035589354int,
        8723462788814686349int,
        4262380618716391894int,
    );
    let e: nat = 256 * e + 132;
    prime_x_half_octet(
        e,
        (0, 1, 1, 0),
        (0, 0, 0, 0),
        4262380618716391894int,
        2448112425917675556int,
        987407333185974477int,
        388766606085140000int,
        4684893005408233184int,
        8826403696903763079int,
        486027437987405676int,
        2797375274427656739int,
        8871248646518164233int,
    );
    let e: nat = 256 * e + 96;
    prime_x_half_octet(
        e,
        (0, 0, 0, 0),
        (0, 0, 0, 0),
        8871248646518164233int,
        6018653381403919975int,
        1264735401984536621int,
        8150330023301044918int,
        832430430953535035int,
        1806327163465407901int,
        6328847174803895106int,
        7470050029931599402int,
        3518913368203608035int,
    );
    let e: nat = 256 * e + 0;
    prime_x_half_octet(
        e,
        (0, 0, 0, 0),
        (0, 0, 0, 0),
        3518913368203608035int,
        9386202416926138041int,
        4310185692998838335int,
        6602741917724874879int,
        8407909323185016242int,
        6258589228878441689int,
        6174541724517449349int,
        4720628829980786850int,
        2133344284640215792int,
    );
    let e: nat = 256 * e + 0;
    prime_x_half_octet(
        e,
        (0, 0, 0, 0),
        (0, 0, 0, 0),
        2133344284640215792int,
        4748907058430674430int,
        969324650112984414int,
        8167580161332662339int,
        8106931984344172334int,
        4489385463931834526int,
        2770146670745555449int,
        2295384067155443511int,
        3380984181211115612int,
    );
    let e: nat = 256 * e + 0;
    prime_x_half_octet(
        e,
        (0, 0, 0, 0),
        (0, 0, 0, 0),
        3380984181211115612int,
        1878175410992491407int,
        9343615914374688870int,
        7419985924341948969int,
        595787699941825532int,
        2227921879734906147int,
        7642016810275958172int,
        7327397618003331675int,
        1171544009806017255int,
    );
    let e: nat = 256 * e + 0;
    assert(e == 18722896314630144nat);
}

/// 11 to the power (x - 1) / 2 is -1 modulo x.
proof fn prime_x_half()
    ensures
        pow(11, 4793061456545316864nat) % 9586122913090633729int == 9586122913090633728int,
{
    prime_x_half_1();
    let e: nat = 18722896314630144nat;
    prime_x_half_octet(
        e,
        (0, 0, 0, 0),
        (0, 0, 0, 0),
        1171544009806017255int,
        1001128142298735837int,
        4362973142656516506int,
        2057346594266219018int,
        3835307671684930829int,
        3896131029859084244int,
        2499916713667757368int,
        5090794555443545103int,
        9586122913090633728int,
    );
    let e: nat = 256 * e + 0;
    assert(e == 4793061456545316864nat);
}

pub(crate) proof fn prime_x()
    ensures
        primes::is_prime(9586122913090633729nat),
{
    prime_x_half();
    assert(pow(2, 46) == 0x4000_0000_0000) by {
        reveal_with_fuel(pow, 47);
    }
    primes::lemma_prime_by_two_power(
        9586122913090633729nat,
        11,
        46,
        0x4000_0000_0000,
        4793061456545316864nat,
        4793061456545316864int,
    );
}

/// Eight bits of an exponent at once, for `power_u`.
proof fn power_u_octet(
    e: nat,
    b: (nat, nat, nat, nat),
    c: (nat, nat, nat, nat),
    x0: int,
    x1: int,
    x2: int,
    x3: int,
    x4: int,
    x5: int,
    x6: int,
    x7: int,
    x8: int,
)
    requires
        b.0 <= 1,
        b.1 <= 1,
        b.2 <= 1,
        b.3 <= 1,
        c.0 <= 1,
        c.1 <= 1,
        c.2 <= 1,
        c.3 <= 1,
        pow(11, e) % 8444461749428370424248824938781546531375899335154063827935233455917409239041int == x0,
        primes::bit_step(x0, b.0, 11, 8444461749428370424248824938781546531375899335154063827935233455917409239041int) == x1,
        primes::bit_step(x1, b.1, 11, 8444461749428370424248824938781546531375899335154063827935233455917409239041int) == x2,
        primes::bit_step(x2, b.2, 11, 8444461749428370424248824938781546531375899335154063827935233455917409239041int) == x3,
        primes::bit_step(x3, b.3, 11, 8444461749428370424248824938781546531375899335154063827935233455917409239041int) == x4,
        primes::bit_step(x4, c.0, 11, 8444461749428370424248824938781546531375899335154063827935233455917409239041int) == x5,
        primes::bit_step(x5, c.1, 11, 8444461749428370424248824938781546531375899335154063827935233455917409239041int) == x6,
        primes::bit_step(x6, c.2, 11, 8444461749428370424248824938781546531375899335154063827935233455917409239041int) == x7,
        primes::bit_step(x7, c.3, 11, 8444461749428370424248824938781546531375899335154063827935233455917409239041int) == x8,
    ensures
        pow(
            11,
            256 * e + 128 * b.0 + 64 * b.1 + 32 * b.2 + 16 * b.3 + 8 * c.0 + 4 * c.1 + 2 * c.2 + c.3,
        ) % 8444461749428370424248824938781546531375899335154063827935233455917409239041int == x8,
{
    primes::lemma_four_bits(11, 8444461749428370424248824938781546531375899335154063827935233455917409239041int, e, b, x0, x1, x2, x3, x4);
    let f = 16 * e + 8 * b.0 + 4 * b.1 + 2 * b.2 + b.3;
    primes::lemma_four_bits(11, 8444461749428370424248824938781546531375899335154063827935233455917409239041int, f, c, x4, x5, x6, x7, x8);
}

/// On the way to `power_u`.
proof fn power_u_1()
    ensures
        pow(11, 20224582492232664nat) % 8444461749428370424248824938781546531375899335154063827935233455917409239041int == 7402295754290255272871627262387931879771783962989693055487449724423360410200int,
{
    primes::lemma_first_powers(11, 8444461749428370424248824938781546531375899335154063827935233455917409239041int);
    let e: nat = 1;
    primes::lemma_bit_step(11, 8444461749428370424248824938781546531375899335154063827935233455917409239041int, e, 0, 11);
    let e: nat = 2 * e + 0;
    primes::lemma_bit_step(11, 8444461749428370424248824938781546531375899335154063827935233455917409239041int, e, 0, 121);
    let e: nat = 2 * e + 0;
    primes::lemma_four_bits(11, 8444461749428370424248824938781546531375899335154063827935233455917409239041int, e, (0, 1, 1, 1), 14641, 214358881, 505447028499293771int, 2810243684806424785061213903353404851int, 86872165247938313917618876629552908322948028701285264656288400841813654211int);
    let e: nat = 16 * e + 7;
    power_u_octet(
        e,
        (1, 1, 0, 1),
        (1, 0, 1, 0),
        86872165247938313917618876629552908322948028701285264656288400841813654211int,
        7102320299889069911330685423548535817739501192938150994891131024499356946176int,
        4030214183402299045189474886947219495684555058873909564903723327208192632011int,
        3812508744598127606603038384268932417319222093445450472901626461283135905576int,
        5729235042806471062452742460989820222758842004963116249283369220754074257425int,
        7896319359458298893266107227776668000680299015673713397451848449330700354574int,
        6510824559248145337386720722619181803231251929495342504719925892699066132255int,
        3882262066106053721813175996313479591377189819840337850544459852857092823458int,
        2633046299913246580383575856969112583749890397322013019637711059747216406076int,
    );
    let e: nat = 256 * e + 218;
    power_u_octet(
        e,
        (0, 0, 1, 0),
        (0, 1, 1, 0),
        2633046299913246580383575856969112583749890397322013019637711059747216406076int,
        363668279405916462752052049736184213156537787485605447628390002930814280060int,
        6770954474618887575937350344073631288474497795732853223634204692489697267212int,
        7992596213411525652971191315736761322553197522652410811231635738406765083818int,
        3386770547877921425144211579325135170999863171187686976157657842620564797550int,
        2816612726323156024830416688508686757411181049778145850776251317598194633893int,
        40802825860502294589880857591350524910138566401990906224132551297167115090int,
        1751273845247024126509671560105762880690784985692528453449987551341379323328int,
        5680448691644155187118260696046751771861439694885801408666631402860768758427int,
    );
    let e: nat = 256 * e + 38;
    power_u_octet(
        e,
        (1, 0, 0, 0),
        (1, 1, 1, 1),
        5680448691644155187118260696046751771861439694885801408666631402860768758427int,
        1789077815159536902252214738643077511040703731153188756999866351699643225916int,
        6129026186255401242797506111923228940753479341665248518710670187824899069124int,
        4821809087886018965171249107606060725606483853854401046364175829555588199201int,
        6698068734684709846466141525689445057558642731219366805901481807088527454978int,
        5171075204876904517893341104748889765240329286528192799408418801387206778769int,
        3118467291959157341271559225309250329535605645971590812928092065613475224828int,
        5042392917805885185100808506291140123626063223470146040256163270056568535665int,
        1424900889349199269097628395609229661702789985596521196178090948251253258056int,
    );
    let e: nat = 256 * e + 143;
    power_u_octet(
        e,
        (0, 0, 1, 0),
        (1, 1, 1, 0),
        1424900889349199269097628395609229661702789985596521196178090948251253258056int,
        8414979713121382642164514610345425493259405946351066399296641983875806471768int,
        6727769177692914866588203435315123897164298270533361990813859372772575922938int,
        3069075423500191614807311583611769454477432532310912403720770484249338672161int,
        737266335547089983377520210215376799092064622848264698628314093089746876140int,
        6456702184053582534032030432346326058989522480222604521559905792956991297378int,
        5580409481447448256898753281596789583240420553465257641736595951714609034676int,
        1860875328766000082686986271742891836658640205879521116110854735537338557533int,
        1672733392421926292728421797894210212266392240577892499703156630531896194123int,
    );
    let e: nat = 256 * e + 46;
    power_u_octet(
        e,
        (0, 0, 0, 1),
        (1, 0, 1, 1),
        1672733392421926292728421797894210212266392240577892499703156630531896194123int,
        2996370224999343384139888407249692212310212111419634701315105499915133327091int,
        5683142757657043973375820704013420963360219476423686394093181438136338965033int,
        3395821760544643538157304818443859655457400872395131360672174911320695871798int,
        3855594659563399397757283201316498295837163420759854321747430467364628900018int,
        7187890738545357890100452953879283370003563351123489895074520933425428904597int,
        7475173576475106663499745571353591242811423213116799610893271683914469573540int,
        4364170474138138842340793263315848279889642522539800624588623785067465155420int,
        7410324065077375162690290566518655123335631845589357566812773258908891859587int,
    );
    let e: nat = 256 * e + 27;
    power_u_octet(
        e,
        (1, 1, 0, 1),
        (1, 0, 0, 0),
        7410324065077375162690290566518655123335631845589357566812773258908891859587int,
        4763977354194574512284712040711612883490881208363041038899934908238440597770int,
        566195049701963115875709721044987554611753866211278063754901812955685120601int,
        4824450771718095548921540810940180981530990664937559105538661360735726349270int,
        2066687597501764329465146983946962724408219110568147069337132983436642238687int,
        4181790252051246698293109938620306912420915784314459461755984333208066030750int,
        5396792039595397980903632162325482041733535680202619915754839602316607169153int,
        1474149299746293845276696267184224188635435911523659258941662858589123064118int,
        7402295754290255272871627262387931879771783962989693055487449724423360410200int,
    );
    let e: nat = 256 * e + 216;
    assert(e == 20224582492232664nat);
}

/// On the way to `power_u`.
proof fn power_u_2()
    ensures
        pow(11, 5692713885983930183197708438368nat) % 8444461749428370424248824938781546531375899335154063827935233455917409239041int == 7367180399210294661861663218088682118681912113786947441575998799762558253351int,
{
    power_u_1();
    let e: nat = 20224582492232664nat;
    power_u_octet(
        e,
        (0, 0, 0, 0),
        (0, 0, 0, 1),
        7402295754290255272871627262387931879771783962989693055487449724423360410200int,
        2285856793616170836175655079883532024379872661274300449211636170460057066540int,
        8417209057033246862914189503312306699159498775749221904602076452799598430452int,
        8398536809703346485722627626456753695157311942962697188745560122272542262097int,
        1107471146766421585264958860284111748008428628593558374047157783368755068079int,
        3725777657501958429932324661344840853385439966235779622601319433763987546434int,
        2722886653874814469710834863740495115390889320039670084860062964970254131409int,
        4775061964654060971398557307913700851961106066117306768220814373235865613833int,
        7437300057401184043195596800308695726721065313969739005788837200498546901096int,
    );
    let e: nat = 256 * e + 1;
    power_u_octet(
        e,
        (1, 0, 0, 1),
        (1, 1, 1, 0),
        7437300057401184043195596800308695726721065313969739005788837200498546901096int,
        7605738743135757922488709479005127101891046741870642959603367985733662081103int,
        2423363530989812634299406536435785530145552701190907008480013886774463476262int,
        6291371478685089970902744708286341144705900508498411695965153774652531499109int,
        1868338658039186268386995804579430929771572623243646315975681920552676062558int,
        7930454742108357329118100580153919758362542380648379705815591574206815150524int,
        7315184094283801640343049400792837736294561783325545138181191898164677645799int,
        1059541567476165619768457234920992036619048476336921748797570887137026627569int,
        384454192567358618071523132462355182461650190034810924066444035913706745461int,
    );
    let e: nat = 256 * e + 158;
    power_u_octet(
        e,
        (1, 1, 0, 0),
        (1, 1, 0, 0),
        384454192567358618071523132462355182461650190034810924066444035913706745461int,
        2962089887440754658926938403719009350637537231858799520647136342842073750928int,
        2588242024203000555426953056136375554883307917197320541811808877538287237375int,
        6305220124289469460355338287331448690817345099302847871213897297160620497211int,
        4364208045980612920142209244604719861408793657315034957168937408039602716953int,
        8303667473735458886659050897116193086726822865271690086635361488194461927770int,
        4850487868493626563188566770326378876164892271488633204510816770326480258176int,
        3507398404058863699988488505884714037804490301366867457454595173026018843216int,
        5967290214565573572766978878050132164826416140858540952090277317991053598802int,
    );
    let e: nat = 256 * e + 204;
    power_u_octet(
        e,
        (1, 0, 0, 0),
        (1, 1, 1, 0),
        5967290214565573572766978878050132164826416140858540952090277317991053598802int,
        8332970074357597591431021054685831064707083641823904337722882340948219906131int,
        1125652256322580677534398206556611702964822046308035562143477847358511564076int,
        8010179012616120815924723956001689016479053520331771415569552388862135354977int,
        7932207214253501527036151934716911586759115948957078347294228032815564412927int,
        6523429307106934112817417625312501964168306853153344613315148258111685774880int,
        7871162524331458670876556840092425340561151420347875383324471996387901488182int,
        3956278058226578621316724067614039274849562190958413234280093938395790587710int,
        1073768811060235789808253138314248213650813899675995137860022010142089717814int,
    );
    let e: nat = 256 * e + 142;
    power_u_octet(
        e,
        (1, 1, 0, 0),
        (1, 0, 1, 1),
        1073768811060235789808253138314248213650813899675995137860022010142089717814int,
        5326824008073608014025141979196362713605750704750352571402358703262891388643int,
        3706481150246910068955482439416350252533559080452031858365298947615619634691int,
        5197541417567502249727441510053935516025740695528718336101045430818158027542int,
        7943428672246509931820368202368920333419735339373039572673262820778857056463int,
        3271284858010448012151856957889636458972432637753541632833128797495777306286int,
        8296451415746385585268896761723134632572156123433942947943050148777140575203int,
        7827242697845612273783463750493132293973039277755329269982841085996608443841int,
        7707184680914644825537464951233923318394077148355626609779942551299255941665int,
    );
    let e: nat = 256 * e + 203;
    power_u_octet(
        e,
        (0, 1, 1, 0),
        (0, 0, 0, 0),
        7707184680914644825537464951233923318394077148355626609779942551299255941665int,
        2764402827634785205586203512782526231403795472114773534441166227119881054739int,
        4785815318192036729233177665636112397032583590126823086591862770261328725321int,
        1454174074456111101845870783353839397250727898963598016218838610924157389661int,
        1098503774392442552332339883263105082553347329188066367237018346758495723169int,
        2285513509469392096951873626692971515248120308955480544414632999775783583786int,
        2413736303082050232344629545264365127987730055860224883326913641853724270001int,
        1731899888448611951349182458194339897846437866502718089019409467490053233462int,
        7367180399210294661861663218088682118681912113786947441575998799762558253351int,
    );
    let e: nat = 256 * e + 96;
    assert(e == 5692713885983930183197708438368nat);
}

/// 11 to the power t / x, with r - 1 = 2^47 t.
proof fn power_u()
    ensures
        pow(11, 6259205111241229547105650289903050653045795nat) % 8444461749428370424248824938781546531375899335154063827935233455917409239041int == 7645944082103043961397839263056792278088548802891448079069440038356064283612int,
{
    power_u_2();
    let e: nat = 5692713885983930183197708438368nat;
    power_u_octet(
        e,
        (0, 0, 0, 0),
        (0, 0, 0, 0),
        7367180399210294661861663218088682118681912113786947441575998799762558253351int,
        2176398178004524663952097548919426607584823086358075600086744128879848524402int,
        7766099201422864749114085704541526666927430513889643853492020926156045938590int,
        4039631359891949098362764199155020921471881541818148136836479416717980161875int,
        4840380097055313733747249688316419543721864098303494879379311801846776390699int,
        4763969183336346342735795490496240779659589453621098227547862219609922924557int,
        2494144133702071234414554239895438680863879054021263714725343975281196187930int,
        2444871549765543881353092302570306729268678870454053238217773868709133367822int,
        5973776819389750317519966715829277653058435312564204741150998538336984676612int,
    );
    let e: nat = 256 * e + 0;
    power_u_octet(
        e,
        (0, 0, 0, 0),
        (0, 0, 0, 0),
        5973776819389750317519966715829277653058435312564204741150998538336984676612int,
        7572348116752306533242471187999953657198540967477612055317108734793204409914int,
        1510018658673983163788383752295759015253080998277742631696216256486168348732int,
        7558738323737979749607950283683250165016810674011976309683591650948263404533int,
        6549722049517949915086784916548739137566753369618197465629885488401143099185int,
        2721497640754668770258937198149633624907050447339001197883429107432469612648int,
        6294085639879292042882834277611549685138877736455662683390566025387070583712int,
        1906955755972995618830584956894382608513428637991977864244361290541947626159int,
        1207709666826981631130290156067173328171450785387342583944424897597276639885int,
    );
    let e: nat = 256 * e + 0;
    power_u_octet(
        e,
        (0, 0, 0, 0),
        (0, 0, 1, 0),
        1207709666826981631130290156067173328171450785387342583944424897597276639885int,
        3588230338397976676422174006074258477481031951564401616217309146137009144052int,
        6058944593423089638134753924131699821402786145328743699354499978134716912411int,
        1456704216033010080035303421454147831828359623734086830900448321528780377444int,
        3103927851027088266837122254861337180220951604581870063826050989773648388457int,
        2604705296445833639646847098502875137319461501530018089456055526873465569162int,
        1492638006543743804251680317146365810006277027853224246693866377112708217108int,
        2290517445642903465264317840466333411228269374188840101731897126882150185903int,
        2369210558835928609171737684606927629258238283466838837972547881780090055048int,
    );
    let e: nat = 256 * e + 2;
    power_u_octet(
        e,
        (0, 0, 0, 1),
        (0, 1, 0, 0),
        2369210558835928609171737684606927629258238283466838837972547881780090055048int,
        8056528915834105838953291392627163085184394219086955064572914834039752815065int,
        4693928558671927281791623901097526160022886411168379251516329725266434587167int,
        1728643190496772152775212826921487268223356533412016695575109110690145895371int,
        1559540552633371930765753997874076682735875434961983385035482976895261691086int,
        1144358446053612192071305783416861538068912423699258256916885749626800661220int,
        2809436673835106040456375274494596380166239997991975983504226504823100007365int,
        2355799189109334050051994105840477233012762353977911492523253720991158109345int,
        2625077110483041249834916457798367255427519233419793886263151193009611848693int,
    );
    let e: nat = 256 * e + 20;
    power_u_octet(
        e,
        (0, 0, 1, 0),
        (0, 0, 1, 1),
        2625077110483041249834916457798367255427519233419793886263151193009611848693int,
        1161059625709240895927941851275611408102382065415361536676221346106922627980int,
        2039366249229663929428682615824596504216539926216741627458478788088591514334int,
        2546429798298743321234810271423571187627301714226118015401175254151155824169int,
        7546036343956787747499949985994464180238549941793847948927291588503368931528int,
        7092685591756718583186071072264513712822120801711951009387383692157306940484int,
        8421648003814615453396059937482494317503168785794609965000416999196880545807int,
        849490653311792089632673712124062583695161704854710439924823604603875409586int,
        7645944082103043961397839263056792278088548802891448079069440038356064283612int,
    );
    let e: nat = 256 * e + 35;
    assert(e == 6259205111241229547105650289903050653045795nat);
}

/// Eight bits of an exponent at once, for `power_w`.
proof fn power_w_octet(
    e: nat,
    b: (nat, nat, nat, nat),
    c: (nat, nat, nat, nat),
    x0: int,
    x1: int,
    x2: int,
    x3: int,
    x4: int,
    x5: int,
    x6: int,
    x7: int,
    x8: int,
)
    requires
        b.0 <= 1,
        b.1 <= 1,
        b.2 <= 1,
        b.3 <= 1,
        c.0 <= 1,
        c.1 <= 1,
        c.2 <= 1,
        c.3 <= 1,
        pow(7645944082103043961397839263056792278088548802891448079069440038356064283612int, e) % 8444461749428370424248824938781546531375899335154063827935233455917409239041int == x0,
        primes::bit_step(x0, b.0, 7645944082103043961397839263056792278088548802891448079069440038356064283612int, 8444461749428370424248824938781546531375899335154063827935233455917409239041int) == x1,
        primes::bit_step(x1, b.1, 7645944082103043961397839263056792278088548802891448079069440038356064283612int, 8444461749428370424248824938781546531375899335154063827935233455917409239041int) == x2,
        primes::bit_step(x2, b.2, 7645944082103043961397839263056792278088548802891448079069440038356064283612int, 8444461749428370424248824938781546531375899335154063827935233455917409239041int) == x3,
        primes::bit_step(x3, b.3, 7645944082103043961397839263056792278088548802891448079069440038356064283612int, 8444461749428370424248824938781546531375899335154063827935233455917409239041int) == x4,
        primes::bit_step(x4, c.0, 7645944082103043961397839263056792278088548802891448079069440038356064283612int, 8444461749428370424248824938781546531375899335154063827935233455917409239041int) == x5,
        primes::bit_step(x5, c.1, 7645944082103043961397839263056792278088548802891448079069440038356064283612int, 8444461749428370424248824938781546531375899335154063827935233455917409239041int) == x6,
        primes::bit_step(x6, c.2, 7645944082103043961397839263056792278088548802891448079069440038356064283612int, 8444461749428370424248824938781546531375899335154063827935233455917409239041int) == x7,
        primes::bit_step(x7, c.3, 7645944082103043961397839263056792278088548802891448079069440038356064283612int, 8444461749428370424248824938781546531375899335154063827935233455917409239041int) == x8,
    ensures
        pow(
            7645944082103043961397839263056792278088548802891448079069440038356064283612int,
            256 * e + 128 * b.0 + 64 * b.1 + 32 * b.2 + 16 * b.3 + 8 * c.0 + 4 * c.1 + 2 * c.2 + c.3,
        ) % 8444461749428370424248824938781546531375899335154063827935233455917409239041int == x8,
{
    primes::lemma_four_bits(7645944082103043961397839263056792278088548802891448079069440038356064283612int, 8444461749428370424248824938781546531375899335154063827935233455917409239041int, e, b, x0, x1, x2, x3, x4);
    let f = 16 * e + 8 * b.0 + 4 * b.1 + 2 * b.2 + b.3;
    primes::lemma_four_bits(7645944082103043961397839263056792278088548802891448079069440038356064283612int, 8444461749428370424248824938781546531375899335154063827935233455917409239041int, f, c, x4, x5, x6, x7, x8);
}

/// On the way to `power_w`.
proof fn power_w_1()
    ensures
        pow(7645944082103043961397839263056792278088548802891448079069440038356064283612int, 37445792629260288nat) % 8444461749428370424248824938781546531375899335154063827935233455917409239041int == 3729901411918452047229875884408076832503393373696859552312745034764390602962int,
{
    primes::lemma_first_powers(7645944082103043961397839263056792278088548802891448079069440038356064283612int, 8444461749428370424248824938781546531375899335154063827935233455917409239041int);
    let e: nat = 1;
    primes::lemma_bit_step(7645944082103043961397839263056792278088548802891448079069440038356064283612int, 8444461749428370424248824938781546531375899335154063827935233455917409239041int, e, 0, 7645944082103043961397839263056792278088548802891448079069440038356064283612int);
    let e: nat = 2 * e + 0;
    primes::lemma_bit_step(7645944082103043961397839263056792278088548802891448079069440038356064283612int, 8444461749428370424248824938781546531375899335154063827935233455917409239041int, e, 0, 3277371921495367330039815498739680860672115739769650623251679731824287826648int);
    let e: nat = 2 * e + 0;
    primes::lemma_bit_step(7645944082103043961397839263056792278088548802891448079069440038356064283612int, 8444461749428370424248824938781546531375899335154063827935233455917409239041int, e, 0, 7367758512113023893058157633629578871459877594155177181783364340950577575185int);
    let e: nat = 2 * e + 0;
    primes::lemma_four_bits(7645944082103043961397839263056792278088548802891448079069440038356064283612int, 8444461749428370424248824938781546531375899335154063827935233455917409239041int, e, (0, 1, 0, 1), 362124317562619938724939405973522747069390895060480522679502280226106800505int, 4252489351641611308627349508392434693649746354076061971547007284261260267725int, 1526830755187256048917807626517066518460236831792889166315230508807902936794int, 3961750700434469282874395547920598942627219884453479591481171271769080968307int, 1842328517429237334993434392018454299122981218781510828434590994339583884498int);
    let e: nat = 16 * e + 5;
    power_w_octet(
        e,
        (0, 0, 0, 0),
        (1, 0, 0, 0),
        1842328517429237334993434392018454299122981218781510828434590994339583884498int,
        3526911322262988836992993891917119351680642051010376605621290611147008692022int,
        1337951885259360824247410536227200840482651867701525604734044513876034355436int,
        1000393349846165235936175136781254498997860292799549421135426954136465688885int,
        7117887140685437610825879437103837614379560586812617638379172390023642540997int,
        1267897587918574430611141648008712792717810580570708666410179565104708451456int,
        2948540759895159224964644462468164153494941592775815717385403692476306492867int,
        2560343605069793035594344079735830809409195916630096014400281592724391659987int,
        7903610471520939351257837836398371243080412947536042785012672890020783316507int,
    );
    let e: nat = 256 * e + 8;
    power_w_octet(
        e,
        (1, 1, 0, 0),
        (0, 0, 0, 0),
        7903610471520939351257837836398371243080412947536042785012672890020783316507int,
        3726130905554959282840966615445717464078944768681637288405564208494080976908int,
        5749719719962282417139416030843160585160056581326203910251557238875594960048int,
        8204876574572232175535395857498815273053100405426519711320830743255336451864int,
        3159882973774672576741295660924783005244237087302150961716812284326848924049int,
        1678690022075220170625277456614762836253241624146950744546985313031267513838int,
        2885073389556774659015575171279983472892394789895239075713513624458233282242int,
        6599281596434945412899380125078817121680991235452078918783777062058345107249int,
        6784323034005133063909863987954504062919612130244186268948399907402955168536int,
    );
    let e: nat = 256 * e + 192;
    power_w_octet(
        e,
        (0, 0, 0, 0),
        (0, 0, 0, 0),
        6784323034005133063909863987954504062919612130244186268948399907402955168536int,
        5220399699720827472244552689755423012906802765835834852534365231422376843215int,
        3303262549202497616254135265955766035650251515554008080483402164686754041667int,
        357761583231134047889964653905133866366469860557441829592537013946193997473int,
        2713340387905518195794477994921347611985156687202848499100241608823899183137int,
        7074471206034783894018133051302579216077482971050779017653806860711823958625int,
        6892123119865651841014026825225129407845946310867164031611101337052247543279int,
        1160947782402530043616342889886237407109997499412205632167067477217624447498int,
        4153155286165865473093110654461597500750817718949272216715486263446453080324int,
    );
    let e: nat = 256 * e + 0;
    power_w_octet(
        e,
        (0, 0, 0, 0),
        (0, 0, 0, 0),
        4153155286165865473093110654461597500750817718949272216715486263446453080324int,
        6435804418090943464361577135125430893717313225813074631547132041239143133356int,
        2606449007407023563832976778233639974469824887199346890276620693846153480575int,
        4202309736605522272018299131600121936142078364259781988430210231681718201448int,
        204307653187063619614428277632935324175061462557892170825562431895418439545int,
        8187923753756625265573535506505659809972294207377096415563592044571748327740int,
        5578277975564885689925379414150879275978095047359855825881201430492222820009int,
        7162835967086717307898907900964511974509158389675958335677751728694088150673int,
        3035913269384615007143838849354968263774046247501737452839951520767150863344int,
    );
    let e: nat = 256 * e + 0;
    power_w_octet(
        e,
        (0, 0, 0, 0),
        (0, 0, 0, 0),
        3035913269384615007143838849354968263774046247501737452839951520767150863344int,
        7836830742426886807929264751512026962606424824020986937141120997471950024552int,
        8078409207043959566024942329089301917328066864180707412040155128264459618231int,
        5529490578984908674589564413480648150776048450370649645756663906202330022227int,
        4209485731648130934423115210290230691001624675790031647481261681747576421154int,
        4935863922974517265864982238876295725227023227305797250886179167966022960775int,
        3074401334848593892062219950300586007947382089274709443153360222927299462821int,
        5318905952687556402515418442107591286262975691103178535682301782155280549808int,
        5783017768244915415301802486555642499252025169420139194510929732718031138577int,
    );
    let e: nat = 256 * e + 0;
    power_w_octet(
        e,
        (0, 0, 0, 0),
        (0, 0, 0, 0),
        5783017768244915415301802486555642499252025169420139194510929732718031138577int,
        5423490958160175697718513191076270706377499353131673099313064113801481699948int,
        1406786853686698451918193898383179197036865912210929356452245166170779549938int,
        5731830137630320287335311321145893605330393789698920170301115613887972810807int,
        1973947058178534795317386256942362688060794541341107941585254456166899923915int,
        4876087674228156413231457192743911020745958337108185252866504932934372921812int,
        4726323419963505271604750598195642712447495535238325851904217550555825680178int,
        7294300482093419044565534879693306435536225695117901041373960802317154926395int,
        3729901411918452047229875884408076832503393373696859552312745034764390602962int,
    );
    let e: nat = 256 * e + 0;
    assert(e == 37445792629260288nat);
}

/// 11 to the power t, a root of unity of order 2^47.
proof fn power_w()
    ensures
        pow(7645944082103043961397839263056792278088548802891448079069440038356064283612int, 9586122913090633729nat) % 8444461749428370424248824938781546531375899335154063827935233455917409239041int == 6924886788847882060123066508223519077232160750698452411071850219367055984476int,
{
    power_w_1();
    let e: nat = 37445792629260288nat;
    power_w_octet(
        e,
        (0, 0, 0, 0),
        (0, 0, 0, 1),
        3729901411918452047229875884408076832503393373696859552312745034764390602962int,
        1408280012375230198633328035123333820013813355906326551750477337441857914228int,
        4694108032010185518665689386408471585426815113470079014494730056394630949463int,
        3537335032037719606771250445212784914401787680938018136945404521896308386686int,
        5009458858824952659998836008912055486381221287750485512341685520806892835657int,
        1282744536985111790478669233574890944165224013802525491881318533130803772698int,
        3436772836796999969462837119304707423360908775923471189955556368476284102463int,
        4584821928228506930710426267677700023822868569470730647991325104044934226878int,
        6924886788847882060123066508223519077232160750698452411071850219367055984476int,
    );
    let e: nat = 256 * e + 1;
    assert(e == 9586122913090633729nat);
}

/// Eight bits of an exponent at once, for `power_minus_one`.
proof fn power_minus_one_octet(
    e: nat,
    b: (nat, nat, nat, nat),
    c: (nat, nat, nat, nat),
    x0: int,
    x1: int,
    x2: int,
    x3: int,
    x4: int,
    x5: int,
    x6: int,
    x7: int,
    x8: int,
)
    requires
        b.0 <= 1,
        b.1 <= 1,
        b.2 <= 1,
        b.3 <= 1,
        c.0 <= 1,
        c.1 <= 1,
        c.2 <= 1,
        c.3 <= 1,
        pow(6924886788847882060123066508223519077232160750698452411071850219367055984476int, e) % 8444461749428370424248824938781546531375899335154063827935233455917409239041int == x0,
        primes::bit_step(x0, b.0, 6924886788847882060123066508223519077232160750698452411071850219367055984476int, 8444461749428370424248824938781546531375899335154063827935233455917409239041int) == x1,
        primes::bit_step(x1, b.1, 6924886788847882060123066508223519077232160750698452411071850219367055984476int, 8444461749428370424248824938781546531375899335154063827935233455917409239041int) == x2,
        primes::bit_step(x2, b.2, 6924886788847882060123066508223519077232160750698452411071850219367055984476int, 8444461749428370424248824938781546531375899335154063827935233455917409239041int) == x3,
        primes::bit_step(x3, b.3, 6924886788847882060123066508223519077232160750698452411071850219367055984476int, 8444461749428370424248824938781546531375899335154063827935233455917409239041int) == x4,
        primes::bit_step(x4, c.0, 6924886788847882060123066508223519077232160750698452411071850219367055984476int, 8444461749428370424248824938781546531375899335154063827935233455917409239041int) == x5,
        primes::bit_step(x5, c.1, 6924886788847882060123066508223519077232160750698452411071850219367055984476int, 8444461749428370424248824938781546531375899335154063827935233455917409239041int) == x6,
        primes::bit_step(x6, c.2, 6924886788847882060123066508223519077232160750698452411071850219367055984476int, 8444461749428370424248824938781546531375899335154063827935233455917409239041int) == x7,
        primes::bit_step(x7, c.3, 6924886788847882060123066508223519077232160750698452411071850219367055984476int, 8444461749428370424248824938781546531375899335154063827935233455917409239041int) == x8,
    ensures
        pow(
            6924886788847882060123066508223519077232160750698452411071850219367055984476int,
            256 * e + 128 * b.0 + 64 * b.1 + 32 * b.2 + 16 * b.3 + 8 * c.0 + 4 * c.1 + 2 * c.2 + c.3,
        ) % 8444461749428370424248824938781546531375899335154063827935233455917409239041int == x8,
{
    primes::lemma_four_bits(6924886788847882060123066508223519077232160750698452411071850219367055984476int, 8444461749428370424248824938781546531375899335154063827935233455917409239041int, e, b, x0, x1, x2, x3, x4);
    let f = 16 * e + 8 * b.0 + 4 * b.1 + 2 * b.2 + b.3;
    primes::lemma_four_bits(6924886788847882060123066508223519077232160750698452411071850219367055984476int, 8444461749428370424248824938781546531375899335154063827935233455917409239041int, f, c, x4, x5, x6, x7, x8);
}

/// The root of unity to the power 2^46 is -1.
proof fn power_minus_one()
    ensures
        pow(6924886788847882060123066508223519077232160750698452411071850219367055984476int, 70368744177664nat) % 8444461749428370424248824938781546531375899335154063827935233455917409239041int == 8444461749428370424248824938781546531375899335154063827935233455917409239040int,
{
    primes::lemma_first_powers(6924886788847882060123066508223519077232160750698452411071850219367055984476int, 8444461749428370424248824938781546531375899335154063827935233455917409239041int);
    let e: nat = 1;
    primes::lemma_bit_step(6924886788847882060123066508223519077232160750698452411071850219367055984476int, 8444461749428370424248824938781546531375899335154063827935233455917409239041int, e, 0, 6924886788847882060123066508223519077232160750698452411071850219367055984476int);
    let e: nat = 2 * e + 0;
    primes::lemma_bit_step(6924886788847882060123066508223519077232160750698452411071850219367055984476int, 8444461749428370424248824938781546531375899335154063827935233455917409239041int, e, 0, 330361166190394557426470193365707074281801959654512287606616505042901199293int);
    let e: nat = 2 * e + 0;
    primes::lemma_four_bits(6924886788847882060123066508223519077232160750698452411071850219367055984476int, 8444461749428370424248824938781546531375899335154063827935233455917409239041int, e, (0, 0, 0, 0), 3717593319861805591006931594469860148436199327886437314532805003782246940760int, 1057169325313687689220735052222060915416666174585889032965173915445614708197int, 4419444391270242649937988707506869467354410276667786909373696045790921180179int, 7102524155486543661552440819561556766364858075738410829216580245528591888172int, 3632397763459360020515563694216135971920549299157634827711901618404959462077int);
    let e: nat = 16 * e + 0;
    power_minus_one_octet(
        e,
        (0, 0, 0, 0),
        (0, 0, 0, 0),
        3632397763459360020515563694216135971920549299157634827711901618404959462077int,
        2267920506951444632082995038842745958657783244756241658775579862519169178524int,
        8238636508150715524708504735426931081720306562315410595562939038656960850357int,
        3953428007101311712745222206971997797893272857203355822844836495180355769840int,
        5863923532975557834916896018882965884984535660327442614067916234287064877652int,
        7602945445775355880783002394847215905789993672864954934615452240682254403034int,
        7554781416732453965417088121328163191112559341039949690080443205185140862905int,
        7267858225859441936758912152405069970422836212498756115816045440429128996399int,
        6777704442984765064775088581910824514368389962299564192643034740903257925287int,
    );
    let e: nat = 256 * e + 0;
    power_minus_one_octet(
        e,
        (0, 0, 0, 0),
        (0, 0, 0, 0),
        6777704442984765064775088581910824514368389962299564192643034740903257925287int,
        1930057499066553534526925054843502925722559244570492977645294594032097704141int,
        4634064840106262608333098625561176484575333064327914404822932677389711509615int,
        1565497781850811008850232997429961634550920972004163648842430005388992919987int,
        5206557590524654230630059118597354215949114566975285453773246164195440728507int,
        1811290751438169268554472083592218025719489100757631033384229325124049688997int,
        3494345626852330337407397425627121366318963267590397401937930262092400468724int,
        6462790987238676275348395350429516473160431951008179664980694073556222531789int,
        1117339593209404437986635170164636490931493107933826022744259054513781031183int,
    );
    let e: nat = 256 * e + 0;
    power_minus_one_octet(
        e,
        (0, 0, 0, 0),
        (0, 0, 0, 0),
        1117339593209404437986635170164636490931493107933826022744259054513781031183int,
        3210947552802307811743101457399051732887891503970198265030720026090649771068int,
        1533296464394208827655587251136258230986431773143422977012591331419874405577int,
        6522797331183414675947724182045710431044810997654397878374460363225375129956int,
        3306348048258199321383750595299419827445348671473228970200877652647549457339int,
        5449908298861016494059773904451496476466672564791388980786804548165035760738int,
        587434374676229034941285174774902970863711575807253643905770105292750590548int,
        2789287727350746221442317883402887046960877802821823021792949293494355609445int,
        6909946360778502559155076333069938886648307823893113819957794244958002587017int,
    );
    let e: nat = 256 * e + 0;
    power_minus_one_octet(
        e,
        (0, 0, 0, 0),
        (0, 0, 0, 0),
        6909946360778502559155076333069938886648307823893113819957794244958002587017int,
        2453726363875835645501725456922515172436797004118157883844560118972584906893int,
        2112041253232420069370105818889986019953154472389042303599070953629192607573int,
        2523112146353785416219153331197389196958205657737987633814539838996180563946int,
        4293520010444695954569567748170778558788574709018869550985216615893785963211int,
        7422813310955073288314147756653319943164135688008611603539518637610088639076int,
        5062525019526844444767471059543072038941054728012983380956770521232838793290int,
        5645073087262908832822497827723487461571417872591976982680347815429224170665int,
        7540654757843904015211995427899777109913845106648572176899670820811801969453int,
    );
    let e: nat = 256 * e + 0;
    power_minus_one_octet(
        e,
        (0, 0, 0, 0),
        (0, 0, 0, 0),
        7540654757843904015211995427899777109913845106648572176899670820811801969453int,
        5267154832290526468145035307720731607029001781623696844862102035325422523594int,
        2639151400341282510151428424787145834393489259484688704725869641224551666484int,
        1535133612853317049483264455119138347082589494460656195069758063445743205237int,
        2583357308888324260666840160914596983992015608013993365173960773794895237895int,
        1805518623693554307715155984671763787632934987122635632690716960252993356371int,
        3279917132858342911831074864712036382710139745724269329239664300762234227201int,
        880904806456922042258150504921383618666682042621506879489int,
        8444461749428370424248824938781546531375899335154063827935233455917409239040int,
    );
    let e: nat = 256 * e + 0;
    assert(e == 70368744177664nat);
}

/// Eight bits of an exponent at once, for `power_y`.
proof fn power_y_octet(
    e: nat,
    b: (nat, nat, nat, nat),
    c: (nat, nat, nat, nat),
    x0: int,
    x1: int,
    x2: int,
    x3: int,
    x4: int,
    x5: int,
    x6: int,
    x7: int,
    x8: int,
)
    requires
        b.0 <= 1,
        b.1 <= 1,
        b.2 <= 1,
        b.3 <= 1,
        c.0 <= 1,
        c.1 <= 1,
        c.2 <= 1,
        c.3 <= 1,
        pow(7645944082103043961397839263056792278088548802891448079069440038356064283612int, e) % 8444461749428370424248824938781546531375899335154063827935233455917409239041int == x0,
        primes::bit_step(x0, b.0, 7645944082103043961397839263056792278088548802891448079069440038356064283612int, 8444461749428370424248824938781546531375899335154063827935233455917409239041int) == x1,
        primes::bit_step(x1, b.1, 7645944082103043961397839263056792278088548802891448079069440038356064283612int, 8444461749428370424248824938781546531375899335154063827935233455917409239041int) == x2,
        primes::bit_step(x2, b.2, 7645944082103043961397839263056792278088548802891448079069440038356064283612int, 8444461749428370424248824938781546531375899335154063827935233455917409239041int) == x3,
        primes::bit_step(x3, b.3, 7645944082103043961397839263056792278088548802891448079069440038356064283612int, 8444461749428370424248824938781546531375899335154063827935233455917409239041int) == x4,
        primes::bit_step(x4, c.0, 7645944082103043961397839263056792278088548802891448079069440038356064283612int, 8444461749428370424248824938781546531375899335154063827935233455917409239041int) == x5,
        primes::bit_step(x5, c.1, 7645944082103043961397839263056792278088548802891448079069440038356064283612int, 8444461749428370424248824938781546531375899335154063827935233455917409239041int) == x6,
        primes::bit_step(x6, c.2, 7645944082103043961397839263056792278088548802891448079069440038356064283612int, 8444461749428370424248824938781546531375899335154063827935233455917409239041int) == x7,
        primes::bit_step(x7, c.3, 7645944082103043961397839263056792278088548802891448079069440038356064283612int, 8444461749428370424248824938781546531375899335154063827935233455917409239041int) == x8,
    ensures
        pow(
            7645944082103043961397839263056792278088548802891448079069440038356064283612int,
            256 * e + 128 * b.0 + 64 * b.1 + 32 * b.2 + 16 * b.3 + 8 * c.0 + 4 * c.1 + 2 * c.2 + c.3,
        ) % 8444461749428370424248824938781546531375899335154063827935233455917409239041int == x8,
{
    primes::lemma_four_bits(7645944082103043961397839263056792278088548802891448079069440038356064283612int, 8444461749428370424248824938781546531375899335154063827935233455917409239041int, e, b, x0, x1, x2, x3, x4);
    let f = 16 * e + 8 * b.0 + 4 * b.1 + 2 * b.2 + b.3;
    primes::lemma_four_bits(7645944082103043961397839263056792278088548802891448079069440038356064283612int, 8444461749428370424248824938781546531375899335154063827935233455917409239041int, f, c, x4, x5, x6, x7, x8);
}

/// 11 to the power (r - 1) / x.
proof fn power_y()
    ensures
        pow(7645944082103043961397839263056792278088548802891448079069440038356064283612int, 140737488355328nat) % 8444461749428370424248824938781546531375899335154063827935233455917409239041int == 1204196078645719252573282368580007278934336484493322214867036801053927732280int,
{
    primes::lemma_first_powers(7645944082103043961397839263056792278088548802891448079069440038356064283612int, 8444461749428370424248824938781546531375899335154063827935233455917409239041int);
    let e: nat = 1;
    primes::lemma_bit_step(7645944082103043961397839263056792278088548802891448079069440038356064283612int, 8444461749428370424248824938781546531375899335154063827935233455917409239041int, e, 0, 7645944082103043961397839263056792278088548802891448079069440038356064283612int);
    let e: nat = 2 * e + 0;
    primes::lemma_bit_step(7645944082103043961397839263056792278088548802891448079069440038356064283612int, 8444461749428370424248824938781546531375899335154063827935233455917409239041int, e, 0, 3277371921495367330039815498739680860672115739769650623251679731824287826648int);
    let e: nat = 2 * e + 0;
    primes::lemma_bit_step(7645944082103043961397839263056792278088548802891448079069440038356064283612int, 8444461749428370424248824938781546531375899335154063827935233455917409239041int, e, 0, 7367758512113023893058157633629578871459877594155177181783364340950577575185int);
    let e: nat = 2 * e + 0;
    primes::lemma_four_bits(7645944082103043961397839263056792278088548802891448079069440038356064283612int, 8444461749428370424248824938781546531375899335154063827935233455917409239041int, e, (0, 0, 0, 0), 362124317562619938724939405973522747069390895060480522679502280226106800505int, 4252489351641611308627349508392434693649746354076061971547007284261260267725int, 3250800705177593262148860981377926004070924015008352257069448618143477464945int, 19800054692978038608348225473509372712026927654489654569239090822074596744int, 5043261643137114969889290818988830274437406415680994982604503192422749914298int);
    let e: nat = 16 * e + 0;
    power_y_octet(
        e,
        (0, 0, 0, 0),
        (0, 0, 0, 0),
        5043261643137114969889290818988830274437406415680994982604503192422749914298int,
        1696374216704325971682459424818966984324938149136500323506744584363841422229int,
        6938873644936232928664057582257112422986023353174368157696916961779037721630int,
        4578282385191268714779106304382384426828122523905979494471886860268874689084int,
        5146909607911198437577943476290143394593500519672922200224667611460572161105int,
        4023765385992749199488246881392764137524748201994041584739857569422278367753int,
        1205434138381040796219096337390438362732610513860930025611982935939827329715int,
        2138817475050612543380600847292612729396668290462867989476862511262375307864int,
        723766283667519109087136148442987892237886334133066115839071683448594032398int,
    );
    let e: nat = 256 * e + 0;
    power_y_octet(
        e,
        (0, 0, 0, 0),
        (0, 0, 0, 0),
        723766283667519109087136148442987892237886334133066115839071683448594032398int,
        6344818118264919855906128241608118532278810017908854166369778041432666061896int,
        5360160191337637398130124127120238322954622467308677627979166683176217846242int,
        2439221747805777888210637879728093002541240671168539996796133447325107979002int,
        3667925134850442788744072402787884963693819025177250698851952736400581654302int,
        6324926380170002276847682625220778015529164241860229149655996935742793369380int,
        8112145824969272754813360194210500216282570223323842738542877394561480606831int,
        3115806150537212507153666214724002602629531815514735968564939662819154971359int,
        6903848381918410256330282431884529898037405150333415738383729659992846953907int,
    );
    let e: nat = 256 * e + 0;
    power_y_octet(
        e,
        (0, 0, 0, 0),
        (0, 0, 0, 0),
        6903848381918410256330282431884529898037405150333415738383729659992846953907int,
        3212594176174370078477653755710568695392110148246776825075122437902082562430int,
        4716019206191751342794895001147810593330161767035847094338606972952842947770int,
        6279834892239283469862290658523793352880533405169561640431794822378539796392int,
        7863030041776282736924470106406281922849838774454105419603735996559017570668int,
        3680011308206185743518134484006934540809534103577068983342171834289146425374int,
        7210995323077120075682533811553177831044153971910582107774500351654128701392int,
        1054655260518742437063416641772985494181558276204579965711807479277321563657int,
        2755990746174825248044513634736117594950524520432710402954258066514543169458int,
    );
    let e: nat = 256 * e + 0;
    power_y_octet(
        e,
        (0, 0, 0, 0),
        (0, 0, 0, 0),
        2755990746174825248044513634736117594950524520432710402954258066514543169458int,
        2595642745720109515763329871341844067298114603442810172386941139312593848460int,
        7866204050213482488953541255990801113333209044236630930989728168700473978416int,
        2380307627182509136514460441426496144941948807705658539067150506067809000581int,
        2242407486560561405119800833436668212915521876480049862666608785346625084886int,
        674864603647409476788833389281045827892744861150491921355303747022108420754int,
        2900073320982082918922378065159932553926208331452232459212672609357391791334int,
        7210474666842892229191699165906317546965030292720561343582944010062064724974int,
        3250094049353354399145006233574924335107842775327278511947048396408513397719int,
    );
    let e: nat = 256 * e + 0;
    power_y_octet(
        e,
        (0, 0, 0, 0),
        (0, 0, 0, 0),
        3250094049353354399145006233574924335107842775327278511947048396408513397719int,
        3530666014590371209086479412986622104757324146757749122152379716363377567622int,
        6170604863236378184079030234744028425158170281942332655326163122217119227098int,
        7846815998887471767846251068533038752059076328592049993960272964685352244896int,
        3979327691923995531651366663244327972153259087811410779384602002031797965365int,
        199906819171407692352360430844201020789885297046581300123902680624578903333int,
        435293480331511082420070958065901794064942815327183121704129038793539900932int,
        3162540693856110167220462668321207517544053297371661707971681322216985784552int,
        1204196078645719252573282368580007278934336484493322214867036801053927732280int,
    );
    let e: nat = 256 * e + 0;
    assert(e == 140737488355328nat);
}

/// 11 to the power t is the root of unity `w`; its power 2^46 is -1, and 11 to
/// the power r - 1 is 1.
pub(crate) proof fn root_of_unity()
    ensures
        pow(11, 60001509534603559531609739528203892656505753216962260608619555nat) % 8444461749428370424248824938781546531375899335154063827935233455917409239041int
            == 6924886788847882060123066508223519077232160750698452411071850219367055984476int,
        pow(
            6924886788847882060123066508223519077232160750698452411071850219367055984476int,
            0x4000_0000_0000,
        ) % 8444461749428370424248824938781546531375899335154063827935233455917409239041int
            == 8444461749428370424248824938781546531375899335154063827935233455917409239040int,
        pow(11, 4222230874714185212124412469390773265687949667577031913967616727958704619520nat) % 8444461749428370424248824938781546531375899335154063827935233455917409239041int
            == 8444461749428370424248824938781546531375899335154063827935233455917409239040int,
        pow(11, 8444461749428370424248824938781546531375899335154063827935233455917409239040nat) % 8444461749428370424248824938781546531375899335154063827935233455917409239041int == 1,
{
    power_u();
    power_w();
    power_minus_one();
    primes::lemma_compose_residues(
        11,
        8444461749428370424248824938781546531375899335154063827935233455917409239041int,
        6259205111241229547105650289903050653045795nat,
        9586122913090633729nat,
        7645944082103043961397839263056792278088548802891448079069440038356064283612int,
        6924886788847882060123066508223519077232160750698452411071850219367055984476int,
    );
    primes::lemma_compose_residues(
        11,
        8444461749428370424248824938781546531375899335154063827935233455917409239041int,
        60001509534603559531609739528203892656505753216962260608619555nat,
        0x4000_0000_0000,
        6924886788847882060123066508223519077232160750698452411071850219367055984476int,
        8444461749428370424248824938781546531375899335154063827935233455917409239040int,
    );
    primes::lemma_multiply_residues(
        11,
        8444461749428370424248824938781546531375899335154063827935233455917409239041int,
        4222230874714185212124412469390773265687949667577031913967616727958704619520nat,
        4222230874714185212124412469390773265687949667577031913967616727958704619520nat,
        8444461749428370424248824938781546531375899335154063827935233455917409239040int,
        8444461749428370424248824938781546531375899335154063827935233455917409239040int,
    );
}

/// The order of the scalar field is prime.
pub(crate) proof fn prime_order()
    ensures
        primes::is_prime(8444461749428370424248824938781546531375899335154063827935233455917409239041nat),
{
    prime_x();
    root_of_unity();
    power_u();
    power_y();
    primes::lemma_compose_residues(
        11,
        8444461749428370424248824938781546531375899335154063827935233455917409239041int,
        6259205111241229547105650289903050653045795nat,
        0x8000_0000_0000,
        7645944082103043961397839263056792278088548802891448079069440038356064283612int,
        1204196078645719252573282368580007278934336484493322214867036801053927732280int,
    );
    primes::lemma_prime_by_two(
        8444461749428370424248824938781546531375899335154063827935233455917409239041nat,
        11,
        9586122913090633729nat,
        9586122913090633729nat,
        91893752504881257701523279626832445440nat,
        880904806456922042258150504921383618657095919708416245760nat,
        880904806456922042258150504921383618657095919708416245760nat,
        1204196078645719252573282368580007278934336484493322214867036801053927732280int,
        1204196078645719252573282368580007278934336484493322214867036801053927732280int,
        4172091819324381900575233479689159640555118942388489031903576517397004450680int,
        4172091819324381900575233479689159640555118942388489031903576517397004450680int,
    );
}

} // verus!
